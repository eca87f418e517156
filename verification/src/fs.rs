//! Helpers of the file-system module: Base64 for binary file contents, and
//! whether a path exists.
use vstd::prelude::*;
use vstd::string::*;
use vstd::utf8::{encode_utf8, is_ascii_chars, is_ascii_chars_encode_utf8};
use crate::text::push_char;
use std::path::Path;

verus! {

/// Whether `path` names an existing file or directory.
///
/// Trusted: calls `Path::exists`, which asks the file system, so nothing is
/// stated of the result.
#[verifier::external_body]
pub fn path_exists(path: &str) -> (r: bool)
{
    Path::new(path).exists()
}

/// The Base64 symbol for a 6-bit value.
pub open spec fn b64_symbol(v: int) -> char {
    if v < 26 {
        (v + 65) as char
    } else if v < 52 {
        (v - 26 + 97) as char
    } else if v < 62 {
        (v - 52 + 48) as char
    } else if v == 62 {
        '+'
    } else {
        '/'
    }
}

/// The standard Base64 encoding of `data` (RFC 4648 alphabet, `=` padding).
pub open spec fn b64_encode(data: Seq<u8>) -> Seq<char>
    decreases data.len(),
{
    if data.len() == 0 {
        Seq::empty()
    } else {
        let b0 = data[0] as int;
        let b1 = if data.len() > 1 { data[1] as int } else { 0 };
        let b2 = if data.len() > 2 { data[2] as int } else { 0 };
        let c0 = b64_symbol(b0 / 4);
        let c1 = b64_symbol((b0 % 4) * 16 + b1 / 16);
        let c2 = if data.len() > 1 { b64_symbol((b1 % 16) * 4 + b2 / 64) } else { '=' };
        let c3 = if data.len() > 2 { b64_symbol(b2 % 64) } else { '=' };
        seq![c0, c1, c2, c3] + if data.len() > 3 {
            b64_encode(data.skip(3))
        } else {
            Seq::empty()
        }
    }
}

/// The 6-bit value of a Base64 byte: `=` counts as zero, and -1 marks a byte
/// outside the alphabet.
pub open spec fn b64_value(b: u8) -> int {
    if 65 <= b <= 90 {
        b - 65
    } else if 97 <= b <= 122 {
        b - 97 + 26
    } else if 48 <= b <= 57 {
        b - 48 + 52
    } else if b == 43 {
        62
    } else if b == 47 {
        63
    } else if b == 61 {
        0
    } else {
        -1
    }
}

/// `s` without its trailing `=` bytes.
pub open spec fn trim_padding(s: Seq<u8>) -> Seq<u8>
    decreases s.len(),
{
    if s.len() > 0 && s.last() == 61 {
        trim_padding(s.drop_last())
    } else {
        s
    }
}

/// How many bytes the first Base64 group of `s` takes: four, or fewer at the end.
pub open spec fn group_len(s: Seq<u8>) -> int {
    if s.len() < 4 { s.len() as int } else { 4 }
}

/// The bytes that the first group of `s` decodes to: `n - 1` bytes for a group
/// of `n` symbols (at least one), or `None` where a symbol lies outside the alphabet.
pub open spec fn decode_group(s: Seq<u8>) -> Option<Seq<u8>> {
    let n = group_len(s);
    let v0 = b64_value(s[0]);
    let v1 = if n > 1 { b64_value(s[1]) } else { 0 };
    let v2 = if n > 2 { b64_value(s[2]) } else { 0 };
    let v3 = if n > 3 { b64_value(s[3]) } else { 0 };
    if v0 < 0 || v1 < 0 || v2 < 0 || v3 < 0 {
        None
    } else {
        let t = v0 * 262144 + v1 * 4096 + v2 * 64 + v3;
        Some(seq![((t / 65536) % 256) as u8] + (if n > 2 {
            seq![((t / 256) % 256) as u8]
        } else {
            Seq::empty()
        }) + (if n > 3 {
            seq![(t % 256) as u8]
        } else {
            Seq::empty()
        }))
    }
}

/// Decodes `s` group by group; `None` where any group fails.
pub open spec fn b64_decode_groups(s: Seq<u8>) -> Option<Seq<u8>>
    decreases s.len(),
{
    if s.len() == 0 {
        Some(Seq::empty())
    } else {
        match decode_group(s) {
            Some(out) => match b64_decode_groups(s.skip(group_len(s))) {
                Some(rest) => Some(out + rest),
                None => None,
            },
            None => None,
        }
    }
}

/// What `base64_decode` gives for the UTF-8 bytes `s` of its argument.
pub open spec fn b64_decode(s: Seq<u8>) -> Option<Seq<u8>> {
    b64_decode_groups(trim_padding(s))
}

fn symbol(v: u32) -> (c: char)
    requires
        v < 64,
    ensures
        c == b64_symbol(v as int),
{
    if v < 26 {
        ((v + 65) as u8) as char
    } else if v < 52 {
        ((v - 26 + 97) as u8) as char
    } else if v < 62 {
        ((v - 52 + 48) as u8) as char
    } else if v == 62 {
        '+'
    } else {
        '/'
    }
}

/// Encodes `data` in standard Base64 with `=` padding.
pub fn base64_encode(data: &[u8]) -> (r: String)
    ensures
        r@ == b64_encode(data@),
{
    let mut result = String::new();
    let len = data.len();
    let mut i: usize = 0;
    assert(data@.skip(0) == data@);
    assert(result@ + (if i < len { b64_encode(data@.skip(i as int)) } else { Seq::empty() })
        =~= b64_encode(data@));
    while i < len
        invariant
            len == data@.len(),
            i <= len,
            i < len ==> i % 3 == 0,
            result@ + (if i < len { b64_encode(data@.skip(i as int)) } else { Seq::empty() })
                == b64_encode(data@),
        decreases len - i,
    {
        let ghost rest = data@.skip(i as int);
        let b0 = data[i] as u32;
        let b1 = if len - i > 1 { data[i + 1] as u32 } else { 0 };
        let b2 = if len - i > 2 { data[i + 2] as u32 } else { 0 };
        let ghost old_result = result@;
        push_char(&mut result, symbol(b0 / 4));
        push_char(&mut result, symbol((b0 % 4) * 16 + b1 / 16));
        if len - i > 1 {
            push_char(&mut result, symbol((b1 % 16) * 4 + b2 / 64));
        } else {
            push_char(&mut result, '=');
        }
        if len - i > 2 {
            push_char(&mut result, symbol(b2 % 64));
        } else {
            push_char(&mut result, '=');
        }
        proof {
            let e = b64_encode(rest);
            assert(rest.len() > 0);
            assert(rest[0] == data@[i as int]);
            if rest.len() > 1 {
                assert(rest[1] == data@[i + 1]);
            }
            if rest.len() > 2 {
                assert(rest[2] == data@[i + 2]);
            }
            let quad = result@.subrange(old_result.len() as int, result@.len() as int);
            assert(result@ == old_result + quad);
            if len - i > 3 {
                assert(rest.skip(3) == data@.skip(i + 3));
                assert(e == quad + b64_encode(data@.skip(i + 3)));
            } else {
                assert(e == quad + Seq::<char>::empty());
            }
        }
        if len - i > 3 {
            i = i + 3;
        } else {
            i = len;
        }
        assert(result@ + (if i < len { b64_encode(data@.skip(i as int)) } else { Seq::empty() })
            =~= b64_encode(data@));
    }
    assert(data@.skip(0) == data@);
    result
}

fn value(b: u8) -> (v: i32)
    ensures
        v == b64_value(b),
{
    if 65 <= b && b <= 90 {
        b as i32 - 65
    } else if 97 <= b && b <= 122 {
        b as i32 - 97 + 26
    } else if 48 <= b && b <= 57 {
        b as i32 - 48 + 52
    } else if b == 43 {
        62
    } else if b == 47 {
        63
    } else if b == 61 {
        0
    } else {
        -1
    }
}

/// Decodes the group `bytes[i..i + n]` and appends its bytes to `out`;
/// false, with `out` unchanged, where the group holds a symbol outside the alphabet.
fn push_group(bytes: &[u8], i: usize, end: usize, out: &mut Vec<u8>) -> (ok: bool)
    requires
        i < end <= bytes@.len(),
    ensures
        match decode_group(bytes@.subrange(i as int, end as int)) {
            Some(g) => ok && final(out)@ == old(out)@ + g,
            None => !ok,
        },
{
    let ghost u = bytes@.subrange(i as int, end as int);
    let n: usize = if end - i < 4 { end - i } else { 4 };
    assert(u.len() == end - i);
    let v0 = value(bytes[i]);
    let v1 = if n > 1 { value(bytes[i + 1]) } else { 0 };
    let v2 = if n > 2 { value(bytes[i + 2]) } else { 0 };
    let v3 = if n > 3 { value(bytes[i + 3]) } else { 0 };
    assert(u[0] == bytes@[i as int]);
    if n > 1 { assert(u[1] == bytes@[i + 1]); }
    if n > 2 { assert(u[2] == bytes@[i + 2]); }
    if n > 3 { assert(u[3] == bytes@[i + 3]); }
    if v0 < 0 || v1 < 0 || v2 < 0 || v3 < 0 {
        return false;
    }
    let triple: u32 = (v0 as u32) * 262144 + (v1 as u32) * 4096 + (v2 as u32) * 64 + (v3 as u32);
    out.push(((triple / 65536) % 256) as u8);
    if n > 2 {
        out.push(((triple / 256) % 256) as u8);
    }
    if n > 3 {
        out.push((triple % 256) as u8);
    }
    assert(out@ =~= old(out)@ + decode_group(u)->0);
    true
}

/// Decodes Base64 text: trailing `=` are dropped, then each group of four
/// symbols gives three bytes (a shorter final group fewer); `None` where a
/// byte lies outside the alphabet.
pub fn base64_decode(data: &str) -> (r: Option<Vec<u8>>)
    ensures
        match r {
            Some(v) => b64_decode(data.spec_bytes()) == Some(v@),
            None => b64_decode(data.spec_bytes()) is None,
        },
{
    let bytes = data.as_bytes();
    let ghost s = bytes@;
    let mut end = bytes.len();
    assert(s.take(end as int) == s);
    while end > 0 && bytes[end - 1] == 61
        invariant
            end <= bytes@.len(),
            s == bytes@,
            trim_padding(s.take(end as int)) == trim_padding(s),
        decreases end,
    {
        assert(s.take(end as int).drop_last() == s.take(end - 1));
        end = end - 1;
    }
    let ghost t = s.take(end as int);
    assert(trim_padding(t) == t);
    let mut output: Vec<u8> = Vec::new();
    let mut i: usize = 0;
    assert(t.skip(0) == t);
    while i < end
        invariant
            end <= bytes@.len(),
            s == bytes@,
            s == data.spec_bytes(),
            t == s.take(end as int),
            trim_padding(s) == t,
            i <= end,
            match b64_decode_groups(t.skip(i as int)) {
                Some(rest) => b64_decode_groups(t) == Some(output@ + rest),
                None => b64_decode_groups(t) is None,
            },
        decreases end - i,
    {
        let ghost u = t.skip(i as int);
        let ghost old_out = output@;
        let n: usize = if end - i < 4 { end - i } else { 4 };
        assert(u.subrange(0, n as int) == bytes@.subrange(i as int, (i + n) as int));
        assert(decode_group(u) == decode_group(bytes@.subrange(i as int, (i + n) as int)));
        if !push_group(bytes, i, i + n, &mut output) {
            return None;
        }
        assert(u.skip(n as int) == t.skip(i + n));
        proof {
            let grp = decode_group(u)->0;
            match b64_decode_groups(t.skip(i + n)) {
                Some(rest) => {
                    assert(old_out + (grp + rest) == output@ + rest);
                },
                None => {},
            }
        }
        i = i + n;
    }
    assert(t.skip(i as int) == Seq::<u8>::empty());
    assert(output@ + Seq::<u8>::empty() == output@);
    Some(output)
}

/// The bytes of an ASCII character sequence.
pub open spec fn ascii_bytes(cs: Seq<char>) -> Seq<u8> {
    Seq::new(cs.len(), |i: int| cs[i] as u8)
}

/// The Base64 encoding of `data` as bytes, without its `=` padding.
pub open spec fn b64_unpadded(data: Seq<u8>) -> Seq<u8>
    decreases data.len(),
{
    if data.len() == 0 {
        Seq::empty()
    } else {
        let b0 = data[0] as int;
        let b1 = if data.len() > 1 { data[1] as int } else { 0 };
        let b2 = if data.len() > 2 { data[2] as int } else { 0 };
        let c0 = b64_symbol(b0 / 4) as u8;
        let c1 = b64_symbol((b0 % 4) * 16 + b1 / 16) as u8;
        let c2 = b64_symbol((b1 % 16) * 4 + b2 / 64) as u8;
        let c3 = b64_symbol(b2 % 64) as u8;
        seq![c0, c1] + (if data.len() > 1 { seq![c2] } else { Seq::empty() }) + (if data.len()
            > 2 {
            seq![c3]
        } else {
            Seq::empty()
        }) + (if data.len() > 3 {
            b64_unpadded(data.skip(3))
        } else {
            Seq::empty()
        })
    }
}

proof fn lemma_symbol(v: int)
    requires
        0 <= v < 64,
    ensures
        (b64_symbol(v) as u32) < 128,
        b64_symbol(v) != '=',
        b64_value(b64_symbol(v) as u8) == v,
{
}

proof fn lemma_encode_ascii(data: Seq<u8>)
    ensures
        is_ascii_chars(b64_encode(data)),
        trim_padding(ascii_bytes(b64_encode(data))) == b64_unpadded(data),
        data.len() > 0 ==> b64_unpadded(data).len() >= 2,
    decreases data.len(),
{
    if data.len() > 0 {
        let b0 = data[0] as int;
        let b1 = if data.len() > 1 { data[1] as int } else { 0 };
        let b2 = if data.len() > 2 { data[2] as int } else { 0 };
        lemma_symbol(b0 / 4);
        lemma_symbol((b0 % 4) * 16 + b1 / 16);
        lemma_symbol((b1 % 16) * 4 + b2 / 64);
        lemma_symbol(b2 % 64);
        let e = b64_encode(data);
        let quad = e.subrange(0, 4);
        let qb = ascii_bytes(quad);
        if data.len() > 3 {
            let rest = data.skip(3);
            lemma_encode_ascii(rest);
            let er = b64_encode(rest);
            assert(e =~= quad + er);
            assert(ascii_bytes(e) =~= qb + ascii_bytes(er));
            lemma_trim_concat(qb, ascii_bytes(er));
            assert(qb + b64_unpadded(rest) =~= b64_unpadded(data));
            assert(trim_padding(ascii_bytes(e)) == qb + b64_unpadded(rest));
        } else {
            assert(e == quad);
            assert(qb.len() == 4);
            if data.len() == 1 {
                let q2 = qb.drop_last().drop_last();
                assert(q2 =~= b64_unpadded(data));
                assert(qb[3] == 61);
                assert(qb.drop_last()[2] == 61);
                assert(q2.last() != 61);
                assert(trim_padding(q2) == q2);
                assert(trim_padding(qb.drop_last()) == trim_padding(q2));
                assert(trim_padding(qb) == trim_padding(qb.drop_last()));
            } else if data.len() == 2 {
                assert(qb.drop_last() =~= b64_unpadded(data));
                assert(qb[3] == 61);
                assert(qb.drop_last().last() != 61);
                assert(trim_padding(qb.drop_last()) == qb.drop_last());
                assert(trim_padding(qb) == trim_padding(qb.drop_last()));
            } else {
                assert(qb =~= b64_unpadded(data));
                assert(qb.last() != 61);
                assert(trim_padding(qb) == qb);
            }
            assert(ascii_bytes(e) =~= qb);
        }
    }
    else {
        assert(ascii_bytes(b64_encode(data)) =~= Seq::<u8>::empty());
    }
}
proof fn lemma_trim_concat(a: Seq<u8>, b: Seq<u8>)
    requires
        trim_padding(b).len() > 0,
    ensures
        trim_padding(a + b) == a + trim_padding(b),
    decreases b.len(),
{
    if b.len() > 0 && b.last() == 61 {
        lemma_trim_concat(a, b.drop_last());
        assert((a + b).drop_last() == a + b.drop_last());
    } else {
        assert(b.len() > 0);
        assert((a + b).last() == b.last());
    }
}

proof fn lemma_decode_unpadded(data: Seq<u8>)
    ensures
        b64_decode_groups(b64_unpadded(data)) == Some(data),
    decreases data.len(),
{
    if data.len() > 0 {
        let u = b64_unpadded(data);
        let b0 = data[0] as int;
        let b1 = if data.len() > 1 { data[1] as int } else { 0 };
        let b2 = if data.len() > 2 { data[2] as int } else { 0 };
        let v0 = b0 / 4;
        let v1 = (b0 % 4) * 16 + b1 / 16;
        let v2 = (b1 % 16) * 4 + b2 / 64;
        let v3 = b2 % 64;
        lemma_symbol(v0);
        lemma_symbol(v1);
        lemma_symbol(v2);
        lemma_symbol(v3);
        let n: int = if data.len() >= 3 { 4 } else { data.len() as int + 1 };
        let first = if data.len() >= 3 { data.take(3) } else { data };
        if data.len() > 3 {
            lemma_decode_unpadded(data.skip(3));
            lemma_encode_ascii(data.skip(3));
            assert(group_len(u) == 4);
            assert(u.skip(4) == b64_unpadded(data.skip(3)));
        } else {
            assert(group_len(u) == n);
            assert(u.skip(n) == Seq::<u8>::empty());
        }
        let w1 = if n > 1 { v1 } else { 0 };
        let w2 = if n > 2 { v2 } else { 0 };
        let w3 = if n > 3 { v3 } else { 0 };
        let t = v0 * 262144 + w1 * 4096 + w2 * 64 + w3;
        assert(decode_group(u) == Some(first)) by {
            assert(b64_value(u[0]) == v0);
            assert(b64_value(u[1]) == v1);
            if n > 2 { assert(b64_value(u[2]) == v2); }
            if n > 3 { assert(b64_value(u[3]) == v3); }
            lemma_group_arith(b0, b1, b2, n);
        }
        if data.len() > 3 {
            assert(first + data.skip(3) =~= data);
        } else {
            assert(first + Seq::<u8>::empty() =~= data);
        }
    }
}

proof fn lemma_group_arith(b0: int, b1: int, b2: int, n: int)
    requires
        0 <= b0 < 256,
        0 <= b1 < 256,
        0 <= b2 < 256,
        2 <= n <= 4,
        n < 4 ==> b2 == 0,
        n < 3 ==> b1 == 0,
    ensures
        ({
            let v0 = b0 / 4;
            let v1 = (b0 % 4) * 16 + b1 / 16;
            let v2 = if n > 2 { (b1 % 16) * 4 + b2 / 64 } else { 0 };
            let v3 = if n > 3 { b2 % 64 } else { 0 };
            let t = v0 * 262144 + v1 * 4096 + v2 * 64 + v3;
            &&& (t / 65536) % 256 == b0
            &&& n > 2 ==> (t / 256) % 256 == b1
            &&& n > 3 ==> t % 256 == b2
        }),
{
    let v0 = b0 / 4;
    let v1 = (b0 % 4) * 16 + b1 / 16;
    let v2 = if n > 2 { (b1 % 16) * 4 + b2 / 64 } else { 0 };
    let v3 = if n > 3 { b2 % 64 } else { 0 };
    assert(v0 * 262144 + v1 * 4096 == b0 * 65536 + (b1 / 16) * 4096);
    if n > 2 {
        assert(v2 * 64 == (b1 % 16) * 256 + (b2 / 64) * 64);
    }
    if n > 3 {
        assert((b2 / 64) * 64 + v3 == b2);
    }
    assert((b1 / 16) * 4096 + (if n > 2 { (b1 % 16) * 256 } else { 0 }) == (if n > 2 { b1 * 256 } else { 0 }));
    let t = v0 * 262144 + v1 * 4096 + v2 * 64 + v3;
    assert(t == b0 * 65536 + b1 * 256 + b2);
    assert(t / 65536 == b0) by (nonlinear_arith)
        requires t == b0 * 65536 + b1 * 256 + b2, 0 <= b0 < 256, 0 <= b1 < 256, 0 <= b2 < 256;
    assert(t / 256 == b0 * 256 + b1) by (nonlinear_arith)
        requires t == b0 * 65536 + b1 * 256 + b2, 0 <= b0 < 256, 0 <= b1 < 256, 0 <= b2 < 256;
    assert((b0 * 256 + b1) % 256 == b1) by (nonlinear_arith)
        requires 0 <= b0 < 256, 0 <= b1 < 256;
    assert(t % 256 == b2) by (nonlinear_arith)
        requires t == b0 * 65536 + b1 * 256 + b2, 0 <= b0 < 256, 0 <= b1 < 256, 0 <= b2 < 256;
}

/// Decoding what `base64_encode` produced gives back the original bytes.
pub proof fn law_base64_round_trip(data: Seq<u8>)
    ensures
        b64_decode(encode_utf8(b64_encode(data))) == Some(data),
{
    lemma_encode_ascii(data);
    is_ascii_chars_encode_utf8(b64_encode(data));
    assert(encode_utf8(b64_encode(data)) =~= ascii_bytes(b64_encode(data)));
    lemma_decode_unpadded(data);
}

/// The Base64 alphabet, value by value: `A`–`Z` are 0–25, `a`–`z` 26–51,
/// `0`–`9` 52–61, `+` is 62 and `/` is 63. Decoding reads each symbol back
/// as its value.
pub proof fn law_b64_alphabet(v: int)
    requires
        0 <= v < 64,
    ensures
        v < 26 ==> 'A' <= b64_symbol(v) <= 'Z' && (b64_symbol(v) as int) - ('A' as int) == v,
        26 <= v < 52 ==> 'a' <= b64_symbol(v) <= 'z' && (b64_symbol(v) as int) - ('a' as int) == v - 26,
        52 <= v < 62 ==> '0' <= b64_symbol(v) <= '9' && (b64_symbol(v) as int) - ('0' as int) == v - 52,
        v == 62 ==> b64_symbol(v) == '+',
        v == 63 ==> b64_symbol(v) == '/',
        b64_value((b64_symbol(v) as u32) as u8) == v,
{
}

} // verus!
