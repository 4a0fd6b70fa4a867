//! UTF-16 ("wide") string handling used at the Win32 boundary.

use vstd::prelude::*;
use vstd::utf8::is_scalar;

verus! {

broadcast use vstd::utf8::char_u32_cast, vstd::utf8::char_is_scalar;

/// The UTF-16 code units of one character.
pub open spec fn utf16_of_char(c: char) -> Seq<u16> {
    let v = c as u32;
    if v < 0x10000 {
        seq![v as u16]
    } else {
        let w = (v - 0x10000) as u32;
        seq![(0xD800 + w / 0x400) as u16, (0xDC00 + w % 0x400) as u16]
    }
}

/// The UTF-16 encoding of a character sequence.
pub open spec fn encode_utf16(s: Seq<char>) -> Seq<u16>
    decreases s.len(),
{
    if s.len() == 0 {
        seq![]
    } else {
        utf16_of_char(s[0]) + encode_utf16(s.drop_first())
    }
}

pub open spec fn is_high_surrogate(u: u16) -> bool {
    0xD800 <= u <= 0xDBFF
}

pub open spec fn is_low_surrogate(u: u16) -> bool {
    0xDC00 <= u <= 0xDFFF
}

/// The character that a surrogate pair stands for.
pub open spec fn pair_value(hi: u16, lo: u16) -> u32 {
    (0x10000 + (hi - 0xD800) * 0x400 + (lo - 0xDC00)) as u32
}

/// Lossy UTF-16 decoding: every unpaired surrogate becomes U+FFFD.
pub open spec fn decode_utf16_lossy(units: Seq<u16>) -> Seq<char>
    decreases units.len(),
{
    if units.len() == 0 {
        seq![]
    } else {
        let u = units[0];
        if !is_high_surrogate(u) && !is_low_surrogate(u) {
            seq![(u as u32) as char] + decode_utf16_lossy(units.drop_first())
        } else if is_high_surrogate(u) && units.len() >= 2 && is_low_surrogate(units[1]) {
            seq![pair_value(u, units[1]) as char] + decode_utf16_lossy(units.skip(2))
        } else {
            seq!['\u{FFFD}'] + decode_utf16_lossy(units.drop_first())
        }
    }
}

/// The units before the first NUL (all of them when there is none).
pub open spec fn until_nul(units: Seq<u16>) -> Seq<u16>
    decreases units.len(),
{
    if units.len() == 0 || units[0] == 0 {
        seq![]
    } else {
        seq![units[0]] + until_nul(units.drop_first())
    }
}

/// Wraps `char::from_u32`: `Some` exactly for Unicode scalar values, holding
/// the character with that code point.
#[verifier::external_body]
pub(crate) fn char_from_u32(v: u32) -> (res: Option<char>)
    ensures
        res is Some <==> is_scalar(v),
        res matches Some(c) ==> c as u32 == v,
{
    char::from_u32(v)
}

/// Wraps `String::push`: appends one character.
#[verifier::external_body]
pub(crate) fn push_char(s: &mut String, c: char)
    ensures
        final(s)@ == old(s)@.push(c),
{
    s.push(c)
}

pub proof fn lemma_encode_utf16_push(s: Seq<char>, c: char)
    ensures
        encode_utf16(s.push(c)) == encode_utf16(s) + utf16_of_char(c),
    decreases s.len(),
{
    if s.len() == 0 {
        assert(s.push(c).drop_first() =~= Seq::<char>::empty());
        assert(encode_utf16(s.push(c).drop_first()) =~= Seq::<u16>::empty());
        assert(encode_utf16(s) =~= Seq::<u16>::empty());
        assert(encode_utf16(s.push(c)) =~= utf16_of_char(c));
    } else {
        lemma_encode_utf16_push(s.drop_first(), c);
        assert(s.push(c).drop_first() =~= s.drop_first().push(c));
        assert(encode_utf16(s.push(c)) =~= encode_utf16(s) + utf16_of_char(c));
    }
}

/// UTF-16 code units of `s`, one NUL appended.
fn encode_with_nul(s: &str) -> (wide: Vec<u16>)
    ensures
        wide@ == encode_utf16(s@).push(0),
{
    let n = s.unicode_len();
    let mut wide: Vec<u16> = Vec::new();
    let mut i: usize = 0;
    while i < n
        invariant
            n == s@.len(),
            i <= n,
            wide@ == encode_utf16(s@.take(i as int)),
        decreases n - i,
    {
        let c = s.get_char(i);
        let v = c as u32;
        proof {
            lemma_encode_utf16_push(s@.take(i as int), c);
            assert(s@.take(i as int).push(c) =~= s@.take(i + 1));
        }
        if v < 0x10000 {
            wide.push(v as u16);
        } else {
            let w = v - 0x10000;
            wide.push((0xD800 + w / 0x400) as u16);
            wide.push((0xDC00 + w % 0x400) as u16);
        }
        i = i + 1;
    }
    assert(s@.take(n as int) =~= s@);
    wide.push(0);
    wide
}

/// NUL-terminated UTF-16 form of a path, as the Win32 wide APIs take it.
pub fn to_wide(path: &str) -> (wide: Vec<u16>)
    ensures
        wide@ == encode_utf16(path@).push(0),
{
    let mut wide = encode_with_nul(path);
    if wide.len() == 0 || wide[wide.len() - 1] != 0 {
        wide.push(0);
    }
    wide
}

/// NUL-terminated UTF-16 form of a string.
pub fn to_wide_str(s: &str) -> (wide: Vec<u16>)
    ensures
        wide@ == encode_utf16(s@).push(0),
{
    let mut wide = encode_with_nul(s);
    wide
}


proof fn lemma_until_nul_prefix(units: Seq<u16>, p: int)
    requires
        0 <= p <= units.len(),
        forall|j: int| 0 <= j < p ==> units[j] != 0,
        p == units.len() || units[p] == 0,
    ensures
        until_nul(units) == units.take(p),
    decreases p,
{
    if p == 0 {
        assert(units.take(0) =~= Seq::<u16>::empty());
    } else {
        let rest = units.drop_first();
        assert forall|j: int| 0 <= j < p - 1 implies rest[j] != 0 by {
            assert(rest[j] == units[j + 1]);
        }
        lemma_until_nul_prefix(rest, p - 1);
        assert(units.take(p) =~= seq![units[0]] + rest.take(p - 1));
    }
}

/// Decodes the units of `buf` before its first NUL; unpaired surrogates
/// become U+FFFD.
pub fn wide_buf_to_string(buf: &[u16]) -> (s: String)
    ensures
        s@ == decode_utf16_lossy(until_nul(buf@)),
{
    let n = buf.len();
    let mut len: usize = 0;
    while len < n && buf[len] != 0
        invariant
            n == buf@.len(),
            len <= n,
            forall|j: int| 0 <= j < len ==> buf@[j] != 0,
        decreases n - len,
    {
        len = len + 1;
    }
    proof {
        lemma_until_nul_prefix(buf@, len as int);
    }
    let ghost w = buf@.take(len as int);
    let mut out = String::new();
    let mut i: usize = 0;
    assert(w.skip(0) =~= w);
    while i < len
        invariant
            n == buf@.len(),
            len <= n,
            w == buf@.take(len as int),
            i <= len,
            out@ + decode_utf16_lossy(w.skip(i as int)) == decode_utf16_lossy(w),
        decreases len - i,
    {
        let ghost rest = w.skip(i as int);
        let u = buf[i];
        assert(rest[0] == u);
        if u < 0xD800 || u > 0xDFFF {
            let v = u as u32;
            let c = match char_from_u32(v) {
                Some(c) => c,
                None => '\u{FFFD}',
            };
            proof {
                vstd::utf8::char_u32_cast(c, v);
                assert(rest.drop_first() =~= w.skip(i + 1));
                assert(out@.push(c) + decode_utf16_lossy(w.skip(i + 1)) =~= out@
                    + decode_utf16_lossy(rest));
            }
            push_char(&mut out, c);
            i = i + 1;
        } else if u <= 0xDBFF && i + 1 < len && 0xDC00 <= buf[i + 1] && buf[i + 1] <= 0xDFFF {
            let lo = buf[i + 1];
            assert(rest[1] == lo);
            let v: u32 = 0x10000 + ((u - 0xD800) as u32) * 0x400 + ((lo - 0xDC00) as u32);
            assert(v == pair_value(u, lo));
            let c = match char_from_u32(v) {
                Some(c) => c,
                None => '\u{FFFD}',
            };
            proof {
                vstd::utf8::char_u32_cast(c, v);
                assert(rest.skip(2) =~= w.skip(i + 2));
                assert(out@.push(c) + decode_utf16_lossy(w.skip(i + 2)) =~= out@
                    + decode_utf16_lossy(rest));
            }
            push_char(&mut out, c);
            i = i + 2;
        } else {
            proof {
                assert(rest.drop_first() =~= w.skip(i + 1));
                assert(out@.push('\u{FFFD}') + decode_utf16_lossy(w.skip(i + 1)) =~= out@
                    + decode_utf16_lossy(rest));
            }
            push_char(&mut out, '\u{FFFD}');
            i = i + 1;
        }
    }
    assert(w.skip(len as int) =~= Seq::<u16>::empty());
    assert(out@ =~= out@ + decode_utf16_lossy(w.skip(len as int)));
    out
}


proof fn lemma_encode_utf16_no_nul(s: Seq<char>)
    requires
        !s.contains('\0'),
    ensures
        forall|j: int| 0 <= j < encode_utf16(s).len() ==> encode_utf16(s)[j] != 0,
    decreases s.len(),
{
    if s.len() > 0 {
        let rest = s.drop_first();
        assert(!rest.contains('\0')) by {
            if rest.contains('\0') {
                let k = choose|k: int| 0 <= k < rest.len() && rest[k] == '\0';
                assert(s[k + 1] == '\0');
            }
        }
        lemma_encode_utf16_no_nul(rest);
        let c = s[0];
        assert(c != '\0') by {
            assert(s[0] == c);
        }
        let v = c as u32;
        assert(v != 0) by {
            vstd::utf8::char_u32_cast(c, v);
            vstd::utf8::char_u32_cast('\0', 0u32);
        }
        let head = utf16_of_char(c);
        assert forall|j: int| 0 <= j < head.len() implies head[j] != 0 by {
            if v < 0x10000 {
                assert(head[j] == v as u16);
                assert(v as u16 == v);
            } else {
                vstd::utf8::char_is_scalar(c);
                let w = (v - 0x10000) as u32;
                assert(w < 0x100000);
                assert(w / 0x400 < 0x400 && w % 0x400 < 0x400) by (nonlinear_arith)
                    requires
                        w < 0x100000,
                ;
                assert(head[j] >= 0xD800);
            }
        }
        assert forall|j: int| 0 <= j < encode_utf16(s).len() implies encode_utf16(s)[j] != 0 by {
            if j < head.len() {
                assert(encode_utf16(s)[j] == head[j]);
            } else {
                assert(encode_utf16(s)[j] == encode_utf16(rest)[j - head.len()]);
            }
        }
    }
}

proof fn lemma_decode_char_prefix(c: char, tail: Seq<u16>)
    ensures
        decode_utf16_lossy(utf16_of_char(c) + tail) == seq![c] + decode_utf16_lossy(tail),
{
    let v = c as u32;
    let units = utf16_of_char(c) + tail;
    vstd::utf8::char_u32_cast(c, v);
    if v < 0x10000 {
        assert(units[0] == v as u16);
        assert(units.drop_first() =~= tail);
    } else {
        let w = (v - 0x10000) as u32;
        assert(w < 0x100000);
        let hi = (0xD800 + w / 0x400) as u16;
        let lo = (0xDC00 + w % 0x400) as u16;
        assert(w / 0x400 < 0x400 && w % 0x400 < 0x400) by (nonlinear_arith)
            requires
                w < 0x100000,
        ;
        assert(w == (w / 0x400) * 0x400 + w % 0x400) by (nonlinear_arith);
        assert(units[0] == hi);
        assert(units[1] == lo);
        assert(pair_value(hi, lo) == v);
        assert(units.skip(2) =~= tail);
    }
}

proof fn lemma_decode_encode_utf16(s: Seq<char>)
    ensures
        decode_utf16_lossy(encode_utf16(s)) == s,
    decreases s.len(),
{
    if s.len() > 0 {
        lemma_decode_encode_utf16(s.drop_first());
        lemma_decode_char_prefix(s[0], encode_utf16(s.drop_first()));
        assert(seq![s[0]] + s.drop_first() =~= s);
    }
}

/// A string without NUL characters survives the trip through its
/// NUL-terminated wide form and back: `wide_buf_to_string(&to_wide_str(s))`
/// gives `s` again.
pub proof fn law_wide_round_trip(s: Seq<char>)
    requires
        !s.contains('\0'),
    ensures
        decode_utf16_lossy(until_nul(encode_utf16(s).push(0))) == s,
{
    let e = encode_utf16(s);
    lemma_encode_utf16_no_nul(s);
    assert forall|j: int| 0 <= j < e.len() implies e.push(0)[j] != 0 by {
        assert(e.push(0)[j] == e[j]);
    }
    lemma_until_nul_prefix(e.push(0), e.len() as int);
    assert(e.push(0).take(e.len() as int) =~= e);
    lemma_decode_encode_utf16(s);
}

} // verus!
