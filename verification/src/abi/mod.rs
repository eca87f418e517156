//! The value representation that native modules exchange with the runtime.
use vstd::prelude::*;
use std::collections::HashMap;

pub mod loader;
pub mod traits;

verus! {

/// A value crossing the native-module boundary: a type tag and 64 bits of data.
#[derive(Debug, Clone, Copy, PartialEq, Eq, Structural)]
pub struct NativeValue {
    pub tag: u32,
    pub data: u64,
}

pub const TAG_UNDEFINED: u32 = 0;
pub const TAG_NULL: u32 = 1;
pub const TAG_BOOLEAN: u32 = 2;
pub const TAG_NUMBER: u32 = 3;
pub const TAG_STRING: u32 = 4;
pub const TAG_OBJECT: u32 = 5;
pub const TAG_ARRAY: u32 = 6;

/// `undefined`.
pub fn undefined() -> (v: NativeValue)
    ensures
        v == (NativeValue { tag: TAG_UNDEFINED, data: 0 }),
{
    NativeValue { tag: TAG_UNDEFINED, data: 0 }
}

impl Default for NativeValue {
    /// `undefined`.
    fn default() -> (v: Self)
        ensures
            v == (NativeValue { tag: TAG_UNDEFINED, data: 0 }),
    {
        undefined()
    }
}

/// `null`.
pub fn null() -> (v: NativeValue)
    ensures
        v == (NativeValue { tag: TAG_NULL, data: 0 }),
{
    NativeValue { tag: TAG_NULL, data: 0 }
}

/// A boolean: data 1 for true, 0 for false.
pub fn boolean(val: bool) -> (v: NativeValue)
    ensures
        v == (NativeValue { tag: TAG_BOOLEAN, data: if val { 1 } else { 0 } }),
{
    NativeValue { tag: TAG_BOOLEAN, data: if val { 1 } else { 0 } }
}

/// An empty object.
pub fn object_new() -> (v: NativeValue)
    ensures
        v == (NativeValue { tag: TAG_OBJECT, data: 0 }),
{
    NativeValue { tag: TAG_OBJECT, data: 0 }
}

/// An empty array.
pub fn array_new() -> (v: NativeValue)
    ensures
        v == (NativeValue { tag: TAG_ARRAY, data: 0 }),
{
    NativeValue { tag: TAG_ARRAY, data: 0 }
}

/// Whether a value's data is non-zero.
pub fn get_boolean(val: NativeValue) -> (b: bool)
    ensures
        b == (val.data != 0),
{
    val.data != 0
}

/// `2^k`.
pub open spec fn pow2(k: nat) -> nat
    decreases k,
{
    if k == 0 { 1 } else { 2 * pow2((k - 1) as nat) }
}

/// The smallest power of two `u >= unit` (doubling from `unit`) with `n / u < 2^53`:
/// the spacing of the doubles around `n`.
pub open spec fn spacing(n: nat, unit: nat) -> nat
    decreases n - unit,
{
    if unit == 0 || n / unit < pow2(53) || 2 * unit > n {
        unit
    } else {
        spacing(n, unit * 2)
    }
}

/// The double nearest to `n` (ties to even), as an integer: what `n as f64` holds.
pub open spec fn nearest_double(n: nat) -> nat {
    if n < pow2(53) {
        n
    } else {
        let u = spacing(n, 1);
        let q = n / u;
        let r = n % u;
        let h = u / 2;
        let q2 = if r > h || (r == h && q % 2 == 1) { q + 1 } else { q };
        q2 * u
    }
}

/// What `val as f64 as u64` gives: negative values saturate to 0, others round
/// to the nearest double.
pub open spec fn integer_data(val: i64) -> nat {
    if val <= 0 { 0 } else { nearest_double(val as nat) }
}

proof fn lemma_pow2_53()
    ensures
        pow2(53) == 0x20_0000_0000_0000,
        pow2(52) == 0x10_0000_0000_0000,
{
    reveal_with_fuel(pow2, 54);
}

/// A number built from an integer: `val` converted to a double and then to
/// `u64`, as the runtime stores integers.
pub fn integer(val: i64) -> (v: NativeValue)
    ensures
        v.tag == TAG_NUMBER,
        v.data == integer_data(val),
{
    proof {
        lemma_pow2_53();
    }
    if val <= 0 {
        return NativeValue { tag: TAG_NUMBER, data: 0 };
    }
    let n = val as u64;
    if n < 0x20_0000_0000_0000 {
        return NativeValue { tag: TAG_NUMBER, data: n };
    }
    let mut unit: u64 = 1;
    let ghost mut k: nat = 0;
    assert(spacing(n as nat, 1) == spacing(n as nat, unit as nat));
    while n / unit >= 0x20_0000_0000_0000
        invariant
            n >= 0x20_0000_0000_0000,
            n < 0x8000_0000_0000_0000,
            unit == pow2(k),
            1 <= unit <= n,
            spacing(n as nat, 1) == spacing(n as nat, unit as nat),
            pow2(53) == 0x20_0000_0000_0000,
        decreases n - unit,
    {
        assert(unit * 2 <= n) by (nonlinear_arith)
            requires n / unit >= 0x20_0000_0000_0000, unit >= 1;
        unit = unit * 2;
        proof {
            k = k + 1;
        }
    }
    let q = n / unit;
    let r = n % unit;
    let h = unit / 2;
    let q2 = if r > h || (r == h && q % 2 == 1) { q + 1 } else { q };
    assert(q2 * unit <= n + unit) by (nonlinear_arith)
        requires q2 <= q + 1, q == n / unit, unit >= 1;
    NativeValue { tag: TAG_NUMBER, data: q2 * unit }
}

proof fn lemma_pow2_mono(a: nat, b: nat)
    requires
        a <= b,
    ensures
        pow2(a) <= pow2(b),
        pow2(a) >= 1,
    decreases b,
{
    if b > a {
        lemma_pow2_mono(a, (b - 1) as nat);
    } else if a > 0 {
        lemma_pow2_mono((a - 1) as nat, (a - 1) as nat);
    }
}

/// `2^k` for `k < 64`.
fn pow2_u64(k: u32) -> (r: u64)
    requires
        k < 64,
    ensures
        r == pow2(k as nat),
{
    let mut r: u64 = 1;
    let mut i: u32 = 0;
    while i < k
        invariant
            i <= k < 64,
            r == pow2(i as nat),
        decreases k - i,
    {
        proof {
            lemma_pow2_mono((i + 1) as nat, 63);
            lemma_pow2_63();
        }
        r = r * 2;
        i += 1;
    }
    r
}

proof fn lemma_pow2_63()
    ensures
        pow2(63) == 0x8000_0000_0000_0000,
        pow2(11) == 2048,
        pow2(10) == 1024,
{
    reveal_with_fuel(pow2, 64);
}

/// The double whose bits are `bits`, truncated toward zero and saturated to the
/// range of `i64`, with NaN as 0: what `f64::from_bits(bits) as i64` gives.
pub open spec fn truncated_double(bits: u64) -> int {
    let b = bits as int;
    let neg = b >= pow2(63);
    let ex = (b / pow2(52) as int) % 2048;
    let man = b % pow2(52) as int;
    if ex == 2047 {
        if man != 0 {
            0
        } else if neg {
            i64::MIN as int
        } else {
            i64::MAX as int
        }
    } else {
        let m: int = if ex == 0 { man } else { man + pow2(52) };
        let mag: int = if ex >= 1075 { m * pow2((ex - 1075) as nat) } else { m / pow2((1075 - ex) as nat) as int };
        if neg {
            if mag > pow2(63) { i64::MIN as int } else { -mag }
        } else {
            if mag > i64::MAX { i64::MAX as int } else { mag }
        }
    }
}

/// The integer that a number's data stands for when read as the bits of a
/// double: truncated toward zero, saturated, NaN as 0.
pub fn get_integer(val: NativeValue) -> (r: i64)
    ensures
        r == truncated_double(val.data),
{
    proof {
        lemma_pow2_53();
        lemma_pow2_63();
    }
    let bits = val.data;
    let two52 = pow2_u64(52);
    let neg = bits >= pow2_u64(63);
    let ex = (bits / two52) % 2048;
    let man = bits % two52;
    if ex == 2047 {
        if man != 0 {
            return 0;
        } else if neg {
            return i64::MIN;
        } else {
            return i64::MAX;
        }
    }
    let m = if ex == 0 { man } else { man + two52 };
    assert(m < 0x20_0000_0000_0000);
    let ghost mag: int = if ex >= 1075 { m * pow2((ex - 1075) as nat) } else { m as int / pow2((1075 - ex) as nat) as int };
    let mag_u: u64 = if ex >= 1075 {
        let s = (ex - 1075) as u32;
        if s >= 11 {
            proof {
                lemma_pow2_mono(11, s as nat);
                assert(m * pow2(s as nat) >= 0x10_0000_0000_0000 * 2048) by (nonlinear_arith)
                    requires ex != 0, m >= 0x10_0000_0000_0000, pow2(s as nat) >= 2048;
                if m > 0x10_0000_0000_0000 || s > 11 {
                    if s > 11 {
                        lemma_pow2_mono(12, s as nat);
                        reveal_with_fuel(pow2, 13);
                    }
                    assert(m * pow2(s as nat) > 0x8000_0000_0000_0000) by (nonlinear_arith)
                        requires m >= 0x10_0000_0000_0000, pow2(s as nat) >= 2048,
                            m > 0x10_0000_0000_0000 || pow2(s as nat) >= 4096;
                }
            }
            if neg {
                return i64::MIN;
            } else {
                return i64::MAX;
            }
        }
        let p = pow2_u64(s);
        proof {
            lemma_pow2_mono(s as nat, 10);
        }
        assert(m * p < 0x8000_0000_0000_0000) by (nonlinear_arith)
            requires m < 0x20_0000_0000_0000, p <= 1024;
        m * p
    } else {
        let s = 1075 - ex;
        if s >= 53 {
            proof {
                lemma_pow2_mono(53, s as nat);
                assert(m as int / pow2(s as nat) as int == 0) by (nonlinear_arith)
                    requires m < pow2(s as nat), m >= 0;
            }
            assert(mag == 0);
            0
        } else {
            let p = pow2_u64(s as u32);
            proof {
                lemma_pow2_mono(s as nat, s as nat);
            }
            m / p
        }
    };
    assert(mag_u == mag);
    assert(mag_u < 0x8000_0000_0000_0000);
    if neg {
        -(mag_u as i64)
    } else {
        mag_u as i64
    }
}

/// The table of complex values (objects, arrays) that cross the native boundary
/// by handle: values are stored under fresh ids and looked up by id.
pub struct HandleRegistry<V> {
    next_id: u64,
    handles: HashMap<u64, V>,
}

impl<V> HandleRegistry<V> {
    /// The values stored, by id.
    pub closed spec fn handles(&self) -> Map<u64, V> {
        self.handles@
    }

    /// The id that the next stored value gets.
    pub closed spec fn next(&self) -> u64 {
        self.next_id
    }

    /// An empty table whose first id is 1.
    pub fn new() -> (r: Self)
        ensures
            r.handles() == Map::<u64, V>::empty(),
            r.next() == 1,
    {
        HandleRegistry { next_id: 1, handles: HashMap::new() }
    }

    /// Stores `value` under the next id (ids wrap around after `u64::MAX`) and
    /// returns an object value that carries the id.
    pub fn store_handle(&mut self, value: V) -> (r: NativeValue)
        ensures
            r == (NativeValue { tag: TAG_OBJECT, data: old(self).next() }),
            final(self).handles() == old(self).handles().insert(old(self).next(), value),
            final(self).next() == old(self).next().wrapping_add(1),
    {
        let id = self.next_id;
        self.next_id = self.next_id.wrapping_add(1);
        self.handles.insert(id, value);
        NativeValue { tag: TAG_OBJECT, data: id }
    }

    /// The value stored under `id`, if any.
    pub fn get_handle(&self, id: u64) -> (r: Option<&V>)
        ensures
            match r {
                Some(v) => self.handles().contains_key(id) && *v == self.handles()[id],
                None => !self.handles().contains_key(id),
            },
    {
        self.handles.get(&id)
    }

    /// Removes and returns the value stored under `id`, if any.
    pub fn take_handle(&mut self, id: u64) -> (r: Option<V>)
        ensures
            final(self).handles() == old(self).handles().remove(id),
            final(self).next() == old(self).next(),
            match r {
                Some(v) => old(self).handles().contains_key(id) && v == old(self).handles()[id],
                None => !old(self).handles().contains_key(id),
            },
    {
        self.handles.remove(&id)
    }

    /// Whether a value is stored under `id`.
    pub fn peek_handle(&self, id: u64) -> (r: bool)
        ensures
            r == self.handles().contains_key(id),
    {
        self.handles.contains_key(&id)
    }

    /// Drops the value stored under `id`, if any.
    pub fn free_handle(&mut self, id: u64)
        ensures
            final(self).handles() == old(self).handles().remove(id),
            final(self).next() == old(self).next(),
    {
        self.handles.remove(&id);
    }
}

/// A value stored in the table can be read back under the id that storing it
/// returned, until that id is freed or taken.
pub proof fn law_store_then_get<V>(m: Map<u64, V>, next: u64, value: V)
    ensures
        m.insert(next, value).contains_key(next),
        m.insert(next, value)[next] == value,
        !m.insert(next, value).remove(next).contains_key(next),
{
}

} // verus!
