//! Small verified helpers for building and inspecting text.
use vstd::prelude::*;
use vstd::string::*;

verus! {

/// Pushes one character onto the end of a string.
///
/// Trusted: calls `String::push`, whose documentation says it appends the
/// given `char` to the end of the string; the contract claims exactly that.
#[verifier::external_body]
pub(crate) fn push_char(s: &mut String, c: char)
    ensures
        final(s)@ == old(s)@.push(c),
{
    s.push(c);
}

/// Whether two string slices hold the same characters.
///
/// Trusted: calls `<str as PartialEq>::eq`, which the documentation defines as
/// equality of the two strings' contents; the contract claims exactly that.
#[verifier::external_body]
pub(crate) fn str_eq(a: &str, b: &str) -> (r: bool)
    ensures
        r == (a@ == b@),
{
    a == b
}

/// The characters of a string slice, in order.
pub fn chars_of(s: &str) -> (r: Vec<char>)
    ensures
        r@ == s@,
{
    let mut r: Vec<char> = Vec::new();
    for c in it: s.chars()
        invariant
            r@ == it.seq().take(it.index() as int),
    {
        r.push(c);
    }
    r
}

/// A string made of the characters `cs[from..to]`.
pub fn string_of_range(cs: &Vec<char>, from: usize, to: usize) -> (r: String)
    requires
        from <= to <= cs.len(),
    ensures
        r@ == cs@.subrange(from as int, to as int),
{
    let mut r = String::new();
    let mut i = from;
    while i < to
        invariant
            from <= i <= to <= cs.len(),
            r@ == cs@.subrange(from as int, i as int),
        decreases to - i,
    {
        push_char(&mut r, cs[i]);
        assert(cs@.subrange(from as int, i + 1) == cs@.subrange(from as int, i as int).push(
            cs@[i as int],
        ));
        i += 1;
    }
    r
}

/// A string made of all the characters of `cs`.
pub fn string_of(cs: &Vec<char>) -> (r: String)
    ensures
        r@ == cs@,
{
    let r = string_of_range(cs, 0, cs.len());
    assert(cs@.subrange(0, cs@.len() as int) == cs@);
    r
}

/// Appends the characters `cs[from..to]` to `s`.
pub fn push_range(s: &mut String, cs: &Vec<char>, from: usize, to: usize)
    requires
        from <= to <= cs.len(),
    ensures
        final(s)@ == old(s)@ + cs@.subrange(from as int, to as int),
{
    let mut i = from;
    while i < to
        invariant
            from <= i <= to <= cs.len(),
            s@ == old(s)@ + cs@.subrange(from as int, i as int),
        decreases to - i,
    {
        push_char(s, cs[i]);
        assert(cs@.subrange(from as int, i + 1) == cs@.subrange(from as int, i as int).push(
            cs@[i as int],
        ));
        i += 1;
    }
}

/// The decimal digit character for `d < 10`.
pub open spec fn digit_char(d: nat) -> char {
    if d == 0 { '0' }
    else if d == 1 { '1' }
    else if d == 2 { '2' }
    else if d == 3 { '3' }
    else if d == 4 { '4' }
    else if d == 5 { '5' }
    else if d == 6 { '6' }
    else if d == 7 { '7' }
    else if d == 8 { '8' }
    else { '9' }
}

/// The decimal representation of `n`, without sign or leading zeros ("0" for zero).
pub open spec fn decimal(n: nat) -> Seq<char>
    decreases n,
{
    if n < 10 {
        seq![digit_char(n)]
    } else {
        decimal(n / 10).push(digit_char(n % 10))
    }
}

fn digit_to_char(d: u8) -> (c: char)
    requires
        d < 10,
    ensures
        c == digit_char(d as nat),
{
    if d == 0 { '0' }
    else if d == 1 { '1' }
    else if d == 2 { '2' }
    else if d == 3 { '3' }
    else if d == 4 { '4' }
    else if d == 5 { '5' }
    else if d == 6 { '6' }
    else if d == 7 { '7' }
    else if d == 8 { '8' }
    else { '9' }
}

/// Appends the decimal representation of `n` to `s`.
pub fn push_decimal(s: &mut String, n: u64)
    ensures
        final(s)@ == old(s)@ + decimal(n as nat),
    decreases n,
{
    if n < 10 {
        push_char(s, digit_to_char(n as u8));
        assert(decimal(n as nat) == seq![digit_char(n as nat)]);
    } else {
        push_decimal(s, n / 10);
        push_char(s, digit_to_char((n % 10) as u8));
    }
}

/// The decimal representation of `n`.
pub fn decimal_string(n: u64) -> (r: String)
    ensures
        r@ == decimal(n as nat),
{
    let mut s = String::new();
    push_decimal(&mut s, n);
    assert(s@ == Seq::<char>::empty() + decimal(n as nat));
    s
}

/// The decimal representation of `n`, left-padded with zeros to at least `width` digits.
pub open spec fn zero_padded(n: nat, width: nat) -> Seq<char> {
    let d = decimal(n);
    if d.len() < width {
        Seq::new((width - d.len()) as nat, |i: int| '0') + d
    } else {
        d
    }
}

/// `n` copies of the space character.
pub open spec fn spaces(n: nat) -> Seq<char> {
    Seq::new(n, |i: int| ' ')
}

/// Appends `n` copies of `c` to `s`.
pub fn push_repeated(s: &mut String, c: char, n: usize)
    ensures
        final(s)@ == old(s)@ + Seq::new(n as nat, |i: int| c),
{
    let mut k: usize = 0;
    while k < n
        invariant
            k <= n,
            s@ == old(s)@ + Seq::new(k as nat, |i: int| c),
        decreases n - k,
    {
        push_char(s, c);
        assert(Seq::new((k + 1) as nat, |i: int| c) == Seq::new(k as nat, |i: int| c).push(c));
        k += 1;
    }
}

/// The number of bytes that the UTF-8 encoding of `c` takes.
pub open spec fn char_utf8_len(c: char) -> nat {
    if (c as u32) < 0x80 {
        1
    } else if (c as u32) < 0x800 {
        2
    } else if (c as u32) < 0x10000 {
        3
    } else {
        4
    }
}

/// The number of bytes that the UTF-8 encoding of `s` takes.
pub open spec fn utf8_len(s: Seq<char>) -> nat
    decreases s.len(),
{
    if s.len() == 0 {
        0
    } else {
        utf8_len(s.drop_last()) + char_utf8_len(s.last())
    }
}

/// The number of bytes that the UTF-8 encoding of `c` takes.
pub fn char_len_utf8(c: char) -> (n: usize)
    ensures
        n == char_utf8_len(c),
{
    let v = c as u32;
    if v < 0x80 {
        1
    } else if v < 0x800 {
        2
    } else if v < 0x10000 {
        3
    } else {
        4
    }
}

/// The number of bytes that the UTF-8 encoding of `cs[from..to]` takes.
pub fn utf8_len_range(cs: &Vec<char>, from: usize, to: usize) -> (n: u128)
    requires
        from <= to <= cs.len(),
    ensures
        n == utf8_len(cs@.subrange(from as int, to as int)),
{
    let mut n: u128 = 0;
    let mut i = from;
    while i < to
        invariant
            from <= i <= to <= cs.len(),
            n == utf8_len(cs@.subrange(from as int, i as int)),
            n <= 4 * (i - from),
        decreases to - i,
    {
        assert(cs@.subrange(from as int, i + 1).drop_last() == cs@.subrange(from as int, i as int));
        n = n + char_len_utf8(cs[i]) as u128;
        i += 1;
    }
    n
}

/// Positions of the newline characters of `s`, in increasing order.
pub open spec fn newline_positions(s: Seq<char>) -> Seq<int>
    decreases s.len(),
{
    if s.len() == 0 {
        Seq::empty()
    } else {
        let p = newline_positions(s.drop_last());
        if s.last() == '\n' {
            p.push(s.len() - 1)
        } else {
            p
        }
    }
}

/// How many lines `str::lines` yields for `s`: a final line ending adds no empty line.
pub open spec fn line_count(s: Seq<char>) -> nat {
    let p = newline_positions(s);
    let last_start = if p.len() == 0 { 0 } else { p.last() + 1 };
    p.len() + if last_start < s.len() { 1nat } else { 0nat }
}

/// Where line `k` (0-based) of `s` starts.
pub open spec fn line_start(s: Seq<char>, k: int) -> int {
    if k == 0 { 0 } else { newline_positions(s)[k - 1] + 1 }
}

/// Where line `k` (0-based) of `s` ends: before its `\n`, or before `\r\n`.
pub open spec fn line_end(s: Seq<char>, k: int) -> int {
    let p = newline_positions(s);
    if k < p.len() {
        if p[k] > line_start(s, k) && s[p[k] - 1] == '\r' {
            p[k] - 1
        } else {
            p[k]
        }
    } else {
        s.len() as int
    }
}

/// Line `k` (0-based) of `s`, without its line ending.
pub open spec fn line_text(s: Seq<char>, k: int) -> Seq<char> {
    s.subrange(line_start(s, k), line_end(s, k))
}

/// Computes the newline positions of `cs`.
pub fn newlines_of(cs: &Vec<char>) -> (r: Vec<usize>)
    ensures
        r@.len() == newline_positions(cs@).len(),
        forall|j: int| 0 <= j < r@.len() ==> r@[j] as int == #[trigger] newline_positions(cs@)[j],
{
    let mut r: Vec<usize> = Vec::new();
    let mut i: usize = 0;
    while i < cs.len()
        invariant
            i <= cs.len(),
            r@.len() == newline_positions(cs@.take(i as int)).len(),
            forall|j: int|
                0 <= j < r@.len() ==> r@[j] as int == #[trigger] newline_positions(
                    cs@.take(i as int),
                )[j],
        decreases cs.len() - i,
    {
        assert(cs@.take(i + 1).drop_last() == cs@.take(i as int));
        if cs[i] == '\n' {
            r.push(i);
        }
        i += 1;
    }
    assert(cs@.take(cs.len() as int) == cs@);
    r
}

pub proof fn lemma_newline_positions_bounds(s: Seq<char>)
    ensures
        newline_positions(s).len() <= s.len(),
        forall|j: int|
            0 <= j < newline_positions(s).len() ==> j <= #[trigger] newline_positions(s)[j] < s.len()
                && s[newline_positions(s)[j]] == '\n',
        forall|j: int, k: int|
            0 <= j < k < newline_positions(s).len() ==> #[trigger] newline_positions(s)[j]
                < #[trigger] newline_positions(s)[k],
    decreases s.len(),
{
    if s.len() > 0 {
        let t = s.drop_last();
        lemma_newline_positions_bounds(t);
        let p = newline_positions(t);
        assert forall|j: int| 0 <= j < p.len() implies s[p[j]] == '\n' by {
            assert(s[p[j]] == t[p[j]]);
        }
    }
}

/// Where line `line` (1-based) of `cs` starts and ends, if `cs` has that line.
pub fn line_bounds(cs: &Vec<char>, line: usize) -> (r: Option<(usize, usize)>)
    requires
        line > 0,
    ensures
        match r {
            Some((a, b)) => {
                &&& line <= line_count(cs@)
                &&& a == line_start(cs@, line - 1)
                &&& b == line_end(cs@, line - 1)
                &&& 0 <= a <= b <= cs.len()
            },
            None => line > line_count(cs@),
        },
{
    let nl = newlines_of(cs);
    line_bounds_with(cs, &nl, line)
}

/// How many lines `cs` has, given its newline positions `nl`.
pub fn count_lines(cs: &Vec<char>, nl: &Vec<usize>) -> (n: usize)
    requires
        nl@.len() == newline_positions(cs@).len(),
        forall|j: int| 0 <= j < nl@.len() ==> nl@[j] as int == #[trigger] newline_positions(cs@)[j],
    ensures
        n == line_count(cs@),
{
    proof {
        lemma_newline_positions_bounds(cs@);
    }
    let ghost p = newline_positions(cs@);
    let last_start: usize = if nl.len() == 0 {
        0
    } else {
        let last = nl[nl.len() - 1];
        assert(last as int == p[nl.len() - 1]);
        assert(last < cs.len());
        last + 1
    };
    if last_start < cs.len() {
        nl.len() + 1
    } else {
        nl.len()
    }
}

/// As `line_bounds`, given the newline positions `nl` of `cs`.
pub fn line_bounds_with(cs: &Vec<char>, nl: &Vec<usize>, line: usize) -> (r: Option<(usize, usize)>)
    requires
        line > 0,
        nl@.len() == newline_positions(cs@).len(),
        forall|j: int| 0 <= j < nl@.len() ==> nl@[j] as int == #[trigger] newline_positions(cs@)[j],
    ensures
        match r {
            Some((a, b)) => {
                &&& line <= line_count(cs@)
                &&& a == line_start(cs@, line - 1)
                &&& b == line_end(cs@, line - 1)
                &&& 0 <= a <= b <= cs.len()
            },
            None => line > line_count(cs@),
        },
{
    proof {
        lemma_newline_positions_bounds(cs@);
    }
    let ghost p = newline_positions(cs@);
    let last_start: usize = if nl.len() == 0 {
        0
    } else {
        let last = nl[nl.len() - 1];
        assert(last as int == p[nl.len() - 1]);
        assert(p[nl.len() - 1] < cs@.len());
        assert(last < cs.len());
        last + 1
    };
    let count: usize = if last_start < cs.len() {
        nl.len() + 1
    } else {
        nl.len()
    };
    if line > count {
        return None;
    }
    let k = line - 1;
    let start: usize = if k == 0 {
        0
    } else {
        assert(nl@[k - 1] as int == p[k - 1]);
        nl[k - 1] + 1
    };
    let end: usize = if k < nl.len() {
        assert(nl@[k as int] as int == p[k as int]);
        if k > 0 {
            assert(p[k - 1] < p[k as int]);
        }
        if nl[k] > start && cs[nl[k] - 1] == '\r' {
            nl[k] - 1
        } else {
            nl[k]
        }
    } else {
        cs.len()
    };
    proof {
        if k > 0 && k >= nl.len() {
            assert(p[k - 1] < cs.len());
        }
    }
    Some((start, end))
}

/// Whether `c` has the Unicode `White_Space` property, as `char::is_whitespace` says.
pub open spec fn is_whitespace(c: char) -> bool {
    let v = c as u32;
    (0x09 <= v <= 0x0D) || v == 0x20 || v == 0x85 || v == 0xA0 || v == 0x1680 || (0x2000 <= v
        <= 0x200A) || v == 0x2028 || v == 0x2029 || v == 0x202F || v == 0x205F || v == 0x3000
}

/// Whether `c` has the Unicode `White_Space` property.
pub fn char_is_whitespace(c: char) -> (r: bool)
    ensures
        r == is_whitespace(c),
{
    let v = c as u32;
    (0x09 <= v && v <= 0x0D) || v == 0x20 || v == 0x85 || v == 0xA0 || v == 0x1680 || (0x2000 <= v
        && v <= 0x200A) || v == 0x2028 || v == 0x2029 || v == 0x202F || v == 0x205F || v == 0x3000
}

/// `s` without its leading whitespace.
pub open spec fn trim_start(s: Seq<char>) -> Seq<char>
    decreases s.len(),
{
    if s.len() > 0 && is_whitespace(s[0]) {
        trim_start(s.drop_first())
    } else {
        s
    }
}

/// `s` without its trailing whitespace.
pub open spec fn trim_end(s: Seq<char>) -> Seq<char>
    decreases s.len(),
{
    if s.len() > 0 && is_whitespace(s.last()) {
        trim_end(s.drop_last())
    } else {
        s
    }
}

/// `s` without leading and trailing whitespace, as `str::trim` gives it.
pub open spec fn trim(s: Seq<char>) -> Seq<char> {
    trim_end(trim_start(s))
}

/// The bounds of `cs[from..to]` once its leading and trailing whitespace is removed.
pub fn trim_bounds(cs: &Vec<char>, from: usize, to: usize) -> (r: (usize, usize))
    requires
        from <= to <= cs.len(),
    ensures
        from <= r.0 <= r.1 <= to,
        cs@.subrange(r.0 as int, r.1 as int) == trim(cs@.subrange(from as int, to as int)),
{
    let mut a = from;
    while a < to && char_is_whitespace(cs[a])
        invariant
            from <= a <= to <= cs.len(),
            trim_start(cs@.subrange(from as int, to as int)) == trim_start(
                cs@.subrange(a as int, to as int),
            ),
        decreases to - a,
    {
        assert(cs@.subrange(a as int, to as int).drop_first() == cs@.subrange(a + 1, to as int));
        a += 1;
    }
    assert(trim_start(cs@.subrange(a as int, to as int)) == cs@.subrange(a as int, to as int));
    let mut b = to;
    while b > a && char_is_whitespace(cs[b - 1])
        invariant
            from <= a <= b <= to <= cs.len(),
            trim_end(cs@.subrange(a as int, to as int)) == trim_end(cs@.subrange(a as int, b as int)),
        decreases b,
    {
        assert(cs@.subrange(a as int, b as int).drop_last() == cs@.subrange(a as int, b - 1));
        b -= 1;
    }
    assert(trim_end(cs@.subrange(a as int, b as int)) == cs@.subrange(a as int, b as int));
    (a, b)
}

/// The number that a run of decimal digits writes.
pub open spec fn digits_value(s: Seq<char>) -> nat
    decreases s.len(),
{
    if s.len() == 0 {
        0
    } else {
        (digits_value(s.drop_last()) * 10 + ((s.last() as u32) - ('0' as u32))) as nat
    }
}

/// The decimal text of a number is made of the digits `0` to `9`, has no
/// leading zero (but for zero itself), and reads back as the number.
pub proof fn law_decimal_reads_back(n: nat)
    ensures
        decimal(n).len() >= 1,
        forall|k: int| 0 <= k < decimal(n).len() ==> '0' <= #[trigger] decimal(n)[k] && decimal(n)[k] <= '9',
        n > 0 ==> decimal(n)[0] != '0',
        digits_value(decimal(n)) == n,
    decreases n,
{
    lemma_digit_char_value((n % 10) as nat);
    if n < 10 {
        assert(n % 10 == n);
        assert(decimal(n).drop_last() =~= Seq::<char>::empty());
    }
    if n >= 10 {
        law_decimal_reads_back(n / 10);
        let t = decimal(n / 10);
        assert(decimal(n) == t.push(digit_char(n % 10)));
        assert(decimal(n).drop_last() =~= t);
        assert forall|k: int| 0 <= k < decimal(n).len() implies '0' <= #[trigger] decimal(n)[k] && decimal(n)[k] <= '9' by {
            if k < t.len() {
                assert(decimal(n)[k] == t[k]);
            }
        }
        assert(decimal(n)[0] == t[0]);
        assert((n / 10) * 10 + n % 10 == n) by (nonlinear_arith);
        assert(digits_value(decimal(n)) == (digits_value(t) * 10 + ((digit_char((n % 10) as nat) as u32) - ('0' as u32))) as nat);
    } else {
        assert(decimal(n) == seq![digit_char(n)]);
        assert(digits_value(decimal(n)) == (digits_value(Seq::<char>::empty()) * 10 + ((digit_char(n) as u32) - ('0' as u32))) as nat);
    }
}

proof fn lemma_digit_char_value(d: nat)
    requires
        d < 10,
    ensures
        (digit_char(d) as u32) - ('0' as u32) == d,
        '0' <= digit_char(d) <= '9',
        d > 0 ==> digit_char(d) != '0',
{
}

/// Leading zeros add nothing: the number that `zeros + digits` writes is the
/// one `digits` writes.
proof fn lemma_leading_zeros(z: nat, d: Seq<char>)
    ensures
        digits_value(Seq::new(z, |i: int| '0') + d) == digits_value(d),
    decreases d.len(), z,
{
    let zs = Seq::new(z, |i: int| '0');
    if d.len() > 0 {
        lemma_leading_zeros(z, d.drop_last());
        assert((zs + d).drop_last() =~= zs + d.drop_last());
        assert((zs + d).last() == d.last());
    } else if z > 0 {
        assert((zs + d).drop_last() =~= Seq::new((z - 1) as nat, |i: int| '0') + d);
        lemma_leading_zeros((z - 1) as nat, d);
        assert((zs + d).last() == '0');
    } else {
        assert(zs + d =~= d);
    }
}

/// A number below `10^w`, padded with zeros to `w` digits: exactly `w`
/// digits `0` to `9` that read back as the number.
pub proof fn law_zero_padded_reads_back(n: nat, w: nat)
    requires
        w >= 1,
        decimal(n).len() <= w,
    ensures
        zero_padded(n, w).len() == w,
        forall|k: int| 0 <= k < w ==> '0' <= #[trigger] zero_padded(n, w)[k] && zero_padded(n, w)[k] <= '9',
        digits_value(zero_padded(n, w)) == n,
{
    law_decimal_reads_back(n);
    let d = decimal(n);
    if d.len() < w {
        let zs = Seq::new((w - d.len()) as nat, |i: int| '0');
        lemma_leading_zeros((w - d.len()) as nat, d);
        assert forall|k: int| 0 <= k < w implies '0' <= #[trigger] zero_padded(n, w)[k] && zero_padded(n, w)[k] <= '9' by {
            if k >= zs.len() {
                assert(zero_padded(n, w)[k] == d[k - zs.len()]);
            }
        }
    }
}

} // verus!
