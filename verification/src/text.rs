//! Character-level string operations with exact specifications: trimming,
//! prefix tests, ASCII case folding, and decimal / hexadecimal rendering.

use vstd::prelude::*;
use crate::unicode::{char_from_u32, push_char};

verus! {

/// Unicode `White_Space`, the set `char::is_whitespace` tests for.
pub open spec fn is_white_space(c: char) -> bool {
    ||| '\u{9}' <= c <= '\u{D}'
    ||| c == ' '
    ||| c == '\u{85}'
    ||| c == '\u{A0}'
    ||| c == '\u{1680}'
    ||| '\u{2000}' <= c <= '\u{200A}'
    ||| c == '\u{2028}'
    ||| c == '\u{2029}'
    ||| c == '\u{202F}'
    ||| c == '\u{205F}'
    ||| c == '\u{3000}'
}

pub fn is_white_space_exec(c: char) -> (b: bool)
    ensures
        b == is_white_space(c),
{
    ('\u{9}' <= c && c <= '\u{D}') || c == ' ' || c == '\u{85}' || c == '\u{A0}' || c
        == '\u{1680}' || ('\u{2000}' <= c && c <= '\u{200A}') || c == '\u{2028}' || c
        == '\u{2029}' || c == '\u{202F}' || c == '\u{205F}' || c == '\u{3000}'
}

/// A set of characters that trimming removes.
#[derive(Clone, Copy)]
pub enum CharClass {
    Exactly(char),
    WhiteSpace,
}

pub open spec fn in_class(k: CharClass, x: char) -> bool {
    match k {
        CharClass::Exactly(c) => x == c,
        CharClass::WhiteSpace => is_white_space(x),
    }
}

fn in_class_exec(k: CharClass, x: char) -> (b: bool)
    ensures
        b == in_class(k, x),
{
    match k {
        CharClass::Exactly(c) => x == c,
        CharClass::WhiteSpace => is_white_space_exec(x),
    }
}

/// `s` without its leading characters that satisfy `p`.
pub open spec fn trim_start_by(s: Seq<char>, k: CharClass) -> Seq<char>
    decreases s.len(),
{
    if s.len() > 0 && in_class(k, s[0]) {
        trim_start_by(s.drop_first(), k)
    } else {
        s
    }
}

/// `s` without its trailing characters that satisfy `p`.
pub open spec fn trim_end_by(s: Seq<char>, k: CharClass) -> Seq<char>
    decreases s.len(),
{
    if s.len() > 0 && in_class(k, s.last()) {
        trim_end_by(s.drop_last(), k)
    } else {
        s
    }
}

/// `s` without leading and trailing characters that satisfy `p`.
pub open spec fn trim_by(s: Seq<char>, k: CharClass) -> Seq<char> {
    trim_end_by(trim_start_by(s, k), k)
}

/// What `str::trim_matches(c)` leaves of `s`.
pub open spec fn trim_char_spec(s: Seq<char>, c: char) -> Seq<char> {
    trim_by(s, CharClass::Exactly(c))
}

/// What `str::trim` leaves of `s`.
pub open spec fn trim_spec(s: Seq<char>) -> Seq<char> {
    trim_by(s, CharClass::WhiteSpace)
}

proof fn lemma_trim_start_skip(s: Seq<char>, k: CharClass, i: int)
    requires
        0 <= i < s.len(),
        in_class(k, s[i]),
    ensures
        trim_start_by(s.skip(i), k) == trim_start_by(s.skip(i + 1), k),
{
    assert(s.skip(i)[0] == s[i]);
    assert(s.skip(i).drop_first() =~= s.skip(i + 1));
}

proof fn lemma_trim_end_take(s: Seq<char>, k: CharClass, j: int)
    requires
        0 < j <= s.len(),
        in_class(k, s[j - 1]),
    ensures
        trim_end_by(s.take(j), k) == trim_end_by(s.take(j - 1), k),
{
    assert(s.take(j).last() == s[j - 1]);
    assert(s.take(j).drop_last() =~= s.take(j - 1));
}

/// Characters `from..to` of `s` as a new string.
pub fn substring(s: &str, from: usize, to: usize) -> (r: String)
    requires
        from <= to <= s@.len(),
    ensures
        r@ == s@.subrange(from as int, to as int),
{
    let mut r = String::new();
    let mut i = from;
    while i < to
        invariant
            from <= i <= to <= s@.len(),
            r@ == s@.subrange(from as int, i as int),
        decreases to - i,
    {
        let c = s.get_char(i);
        push_char(&mut r, c);
        assert(s@.subrange(from as int, i + 1) =~= s@.subrange(from as int, i as int).push(c));
        i = i + 1;
    }
    r
}

/// What trimming the start leaves is a suffix of `s` that does not begin
/// with a trimmed character.
pub proof fn lemma_trim_start_shape(s: Seq<char>, k: CharClass)
    ensures
        exists|i: int| 0 <= i <= s.len() && #[trigger] s.skip(i) == trim_start_by(s, k),
        trim_start_by(s, k).len() > 0 ==> !in_class(k, trim_start_by(s, k)[0]),
    decreases s.len(),
{
    if s.len() > 0 && in_class(k, s[0]) {
        lemma_trim_start_shape(s.drop_first(), k);
        let i = choose|i: int|
            0 <= i <= s.drop_first().len() && #[trigger] s.drop_first().skip(i) == trim_start_by(
                s.drop_first(),
                k,
            );
        assert(s.skip(i + 1) =~= s.drop_first().skip(i));
    } else {
        assert(s.skip(0) =~= s);
    }
}

/// What trimming the end leaves is a prefix of `s` that does not end with a
/// trimmed character.
pub proof fn lemma_trim_end_shape(s: Seq<char>, k: CharClass)
    ensures
        exists|j: int| 0 <= j <= s.len() && #[trigger] s.take(j) == trim_end_by(s, k),
        trim_end_by(s, k).len() > 0 ==> !in_class(k, trim_end_by(s, k).last()),
    decreases s.len(),
{
    if s.len() > 0 && in_class(k, s.last()) {
        lemma_trim_end_shape(s.drop_last(), k);
        let j = choose|j: int|
            0 <= j <= s.drop_last().len() && #[trigger] s.drop_last().take(j) == trim_end_by(
                s.drop_last(),
                k,
            );
        assert(s.take(j) =~= s.drop_last().take(j));
    } else {
        assert(s.take(s.len() as int) =~= s);
    }
}

/// The result of `trim_by` is a contiguous part of `s` that neither starts
/// nor ends with a trimmed character.
pub proof fn lemma_trim_shape(s: Seq<char>, k: CharClass)
    ensures
        exists|a: int, b: int|
            0 <= a <= b <= s.len() && #[trigger] s.subrange(a, b) == trim_by(s, k),
        trim_by(s, k).len() > 0 ==> !in_class(k, trim_by(s, k)[0]) && !in_class(
            k,
            trim_by(s, k).last(),
        ),
{
    lemma_trim_start_shape(s, k);
    let t = trim_start_by(s, k);
    let a = choose|i: int| 0 <= i <= s.len() && #[trigger] s.skip(i) == t;
    lemma_trim_end_shape(t, k);
    let j = choose|j: int| 0 <= j <= t.len() && #[trigger] t.take(j) == trim_end_by(t, k);
    assert(s.subrange(a, a + j) =~= t.take(j));
    if trim_by(s, k).len() > 0 {
        assert(trim_by(s, k)[0] == t[0]);
    }
}

/// A sequence that neither starts nor ends with a trimmed character is left
/// as it is.
pub proof fn lemma_trim_fixed(s: Seq<char>, k: CharClass)
    requires
        s.len() > 0,
        !in_class(k, s[0]),
        !in_class(k, s.last()),
    ensures
        trim_by(s, k) == s,
{
}

/// Bounds `(a, b)` with `s[a..b]` equal to `trim_by(s, k)`.
fn trim_bounds(s: &str, k: CharClass) -> (r: (usize, usize))
    ensures
        r.0 <= r.1 <= s@.len(),
        s@.subrange(r.0 as int, r.1 as int) == trim_by(s@, k),
{
    let n = s.unicode_len();
    let mut a: usize = 0;
    let mut stop = false;
    assert(s@.skip(0) =~= s@);
    while a < n && !stop
        invariant
            n == s@.len(),
            a <= n,
            trim_start_by(s@, k) == trim_start_by(s@.skip(a as int), k),
            stop ==> a < n && !in_class(k, s@[a as int]),
        decreases n - a, if stop { 0int } else { 1int },
    {
        let x = s.get_char(a);
        if in_class_exec(k, x) {
            proof {
                lemma_trim_start_skip(s@, k, a as int);
            }
            a = a + 1;
        } else {
            stop = true;
        }
    }
    assert(trim_start_by(s@.skip(a as int), k) == s@.skip(a as int)) by {
        if a < n {
            assert(s@.skip(a as int)[0] == s@[a as int]);
        }
    }
    let ghost t = s@.skip(a as int);
    let mut b: usize = n;
    let mut stop2 = false;
    assert(t.take(t.len() as int) =~= t);
    while b > a && !stop2
        invariant
            n == s@.len(),
            a <= b <= n,
            t == s@.skip(a as int),
            trim_end_by(t, k) == trim_end_by(t.take(b - a), k),
            stop2 ==> b > a && !in_class(k, s@[b - 1]),
        decreases b, if stop2 { 0int } else { 1int },
    {
        let x = s.get_char(b - 1);
        if in_class_exec(k, x) {
            proof {
                assert(t[b - a - 1] == x);
                lemma_trim_end_take(t, k, b - a);
            }
            b = b - 1;
        } else {
            stop2 = true;
        }
    }
    assert(trim_end_by(t.take(b - a), k) == t.take(b - a)) by {
        if b > a {
            assert(t.take(b - a).last() == s@[b - 1]);
        }
    }
    assert(t.take(b - a) =~= s@.subrange(a as int, b as int));
    (a, b)
}

/// `str::trim_matches(c)` as an owned string.
pub fn trim_char(s: &str, c: char) -> (r: String)
    ensures
        r@ == trim_char_spec(s@, c),
{
    let (a, b) = trim_bounds(s, CharClass::Exactly(c));
    substring(s, a, b)
}

/// `str::trim` as an owned string.
pub fn trim(s: &str) -> (r: String)
    ensures
        r@ == trim_spec(s@),
{
    let (a, b) = trim_bounds(s, CharClass::WhiteSpace);
    substring(s, a, b)
}


/// Whether `p` is a prefix of `s`.
pub open spec fn starts_with_spec(s: Seq<char>, p: Seq<char>) -> bool {
    p.len() <= s.len() && s.take(p.len() as int) == p
}

/// Whether `pat` occurs in `s` at some position.
pub open spec fn contains_spec(s: Seq<char>, pat: Seq<char>) -> bool {
    exists|i: int|
        0 <= i && i + pat.len() <= s.len() && #[trigger] s.subrange(i, i + pat.len()) == pat
}

/// Whether `a` and `b` hold the same characters.
pub fn same_text(a: &str, b: &str) -> (r: bool)
    ensures
        r == (a@ == b@),
{
    let n = a.unicode_len();
    let m = b.unicode_len();
    if n != m {
        return false;
    }
    let mut i: usize = 0;
    while i < n
        invariant
            n == a@.len(),
            m == b@.len(),
            n == m,
            i <= n,
            forall|j: int| 0 <= j < i ==> a@[j] == b@[j],
        decreases n - i,
    {
        if a.get_char(i) != b.get_char(i) {
            return false;
        }
        i = i + 1;
    }
    assert(a@ =~= b@);
    true
}

/// Whether `s` starts with `p`.
pub fn starts_with(s: &str, p: &str) -> (r: bool)
    ensures
        r == starts_with_spec(s@, p@),
{
    let n = s.unicode_len();
    let m = p.unicode_len();
    if m > n {
        return false;
    }
    let mut i: usize = 0;
    while i < m
        invariant
            n == s@.len(),
            m == p@.len(),
            m <= n,
            i <= m,
            forall|j: int| 0 <= j < i ==> s@[j] == p@[j],
        decreases m - i,
    {
        if s.get_char(i) != p.get_char(i) {
            assert(s@.take(m as int)[i as int] != p@[i as int]);
            return false;
        }
        i = i + 1;
    }
    assert(s@.take(m as int) =~= p@);
    true
}

/// `str::strip_prefix` as an owned string.
pub fn strip_prefix(s: &str, p: &str) -> (r: Option<String>)
    ensures
        r is Some <==> starts_with_spec(s@, p@),
        r matches Some(rest) ==> rest@ == s@.skip(p@.len() as int),
{
    if starts_with(s, p) {
        let n = s.unicode_len();
        let m = p.unicode_len();
        Some(substring(s, m, n))
    } else {
        None
    }
}

/// Whether `pat` occurs in `s`.
pub fn contains(s: &str, pat: &str) -> (r: bool)
    ensures
        r == contains_spec(s@, pat@),
{
    let n = s.unicode_len();
    let m = pat.unicode_len();
    if m > n {
        return false;
    }
    let mut i: usize = 0;
    while i <= n - m
        invariant
            n == s@.len(),
            m == pat@.len(),
            m <= n,
            i <= n - m + 1,
            forall|k: int| 0 <= k < i ==> #[trigger] s@.subrange(k, k + m) != pat@,
        decreases n - i,
    {
        let mut j: usize = 0;
        let mut same = true;
        while j < m && same
            invariant
                n == s@.len(),
                m == pat@.len(),
                i + m <= n,
                j <= m,
                same ==> forall|t: int| 0 <= t < j ==> s@[i + t] == pat@[t],
                !same ==> s@[i + j - 1] != pat@[j - 1] && j >= 1,
            decreases m - j, if same { 1int } else { 0int },
        {
            if s.get_char(i + j) != pat.get_char(j) {
                same = false;
            }
            j = j + 1;
        }
        if same {
            assert(s@.subrange(i as int, i + m) =~= pat@);
            return true;
        }
        assert(s@.subrange(i as int, i + m)[j - 1] != pat@[j - 1]);
        i = i + 1;
    }
    assert forall|k: int| 0 <= k && k + pat@.len() <= s@.len() implies #[trigger] s@.subrange(
        k,
        k + pat@.len(),
    ) != pat@ by {
        assert(k < i);
    }
    false
}

pub open spec fn is_ascii_upper(c: char) -> bool {
    'A' <= c <= 'Z'
}

pub open spec fn is_ascii_alphanumeric(c: char) -> bool {
    ||| 'a' <= c <= 'z'
    ||| 'A' <= c <= 'Z'
    ||| '0' <= c <= '9'
}

pub fn is_ascii_alphanumeric_exec(c: char) -> (b: bool)
    ensures
        b == is_ascii_alphanumeric(c),
{
    ('a' <= c && c <= 'z') || ('A' <= c && c <= 'Z') || ('0' <= c && c <= '9')
}

/// `char::to_ascii_lowercase`.
pub open spec fn ascii_lower_char(c: char) -> char {
    if is_ascii_upper(c) {
        ((c as u32) + 32) as char
    } else {
        c
    }
}

/// `str::to_ascii_lowercase`.
pub open spec fn ascii_lower(s: Seq<char>) -> Seq<char> {
    s.map_values(|c: char| ascii_lower_char(c))
}

fn char_of(v: u32) -> (c: char)
    requires
        vstd::utf8::is_scalar(v),
    ensures
        c == v as char,
        c as u32 == v,
{
    let c = match char_from_u32(v) {
        Some(c) => c,
        None => ' ',
    };
    proof {
        vstd::utf8::char_u32_cast(c, v);
    }
    c
}

/// `str::to_ascii_lowercase` as an owned string.
pub fn to_ascii_lowercase(s: &str) -> (r: String)
    ensures
        r@ == ascii_lower(s@),
{
    let n = s.unicode_len();
    let mut r = String::new();
    let mut i: usize = 0;
    while i < n
        invariant
            n == s@.len(),
            i <= n,
            r@ == ascii_lower(s@.take(i as int)),
        decreases n - i,
    {
        let c = s.get_char(i);
        let d = if 'A' <= c && c <= 'Z' {
            char_of((c as u32) + 32)
        } else {
            c
        };
        push_char(&mut r, d);
        assert(ascii_lower(s@.take(i + 1)) =~= ascii_lower(s@.take(i as int)).push(d));
        i = i + 1;
    }
    assert(s@.take(n as int) =~= s@);
    r
}

/// The digit for `d` (0 to 15): `0`-`9`, then `a`-`f`, or `A`-`F` when
/// `upper`.
pub open spec fn digit_char(d: nat, upper: bool) -> char {
    if upper {
        "0123456789ABCDEF"@[d as int]
    } else {
        "0123456789abcdef"@[d as int]
    }
}

/// The digit table, entry by entry.
pub proof fn lemma_digit_values()
    ensures
        digit_char(0, false) == '0',
        digit_char(1, false) == '1',
        digit_char(2, false) == '2',
        digit_char(3, false) == '3',
        digit_char(4, false) == '4',
        digit_char(5, false) == '5',
        digit_char(6, false) == '6',
        digit_char(7, false) == '7',
        digit_char(8, false) == '8',
        digit_char(9, false) == '9',
        digit_char(10, false) == 'a',
        digit_char(11, false) == 'b',
        digit_char(12, false) == 'c',
        digit_char(13, false) == 'd',
        digit_char(14, false) == 'e',
        digit_char(15, false) == 'f',
        digit_char(0, true) == '0',
        digit_char(1, true) == '1',
        digit_char(2, true) == '2',
        digit_char(3, true) == '3',
        digit_char(4, true) == '4',
        digit_char(5, true) == '5',
        digit_char(6, true) == '6',
        digit_char(7, true) == '7',
        digit_char(8, true) == '8',
        digit_char(9, true) == '9',
        digit_char(10, true) == 'A',
        digit_char(11, true) == 'B',
        digit_char(12, true) == 'C',
        digit_char(13, true) == 'D',
        digit_char(14, true) == 'E',
        digit_char(15, true) == 'F',
{
    reveal_strlit("0123456789ABCDEF");
    reveal_strlit("0123456789abcdef");
}

/// Different values below 16 have different digits.
pub proof fn lemma_digit_injective(a: nat, b: nat, upper: bool)
    requires
        a < 16,
        b < 16,
        digit_char(a, upper) == digit_char(b, upper),
    ensures
        a == b,
{
    lemma_digit_values();
}

/// Decimal representation of `n`, no leading zeros.
pub open spec fn decimal(n: nat) -> Seq<char>
    decreases n,
{
    if n < 10 {
        seq![digit_char(n, false)]
    } else {
        decimal(n / 10).push(digit_char(n % 10, false))
    }
}

/// Decimal representation of a signed number.
pub open spec fn decimal_signed(n: int) -> Seq<char> {
    if n < 0 {
        seq!['-'] + decimal((-n) as nat)
    } else {
        decimal(n as nat)
    }
}

/// The last `width` base-16 digits of `x`, most significant first.
pub open spec fn hex_fixed(x: nat, width: nat, upper: bool) -> Seq<char>
    decreases width,
{
    if width == 0 {
        seq![]
    } else {
        hex_fixed(x / 16, (width - 1) as nat, upper).push(digit_char(x % 16, upper))
    }
}

/// Lower-case hexadecimal of a byte sequence, two digits per byte.
pub open spec fn hex_lower_bytes(bytes: Seq<u8>) -> Seq<char>
    decreases bytes.len(),
{
    if bytes.len() == 0 {
        seq![]
    } else {
        seq![digit_char((bytes[0] / 16) as nat, false), digit_char((bytes[0] % 16) as nat, false)]
            + hex_lower_bytes(bytes.drop_first())
    }
}

fn digit(d: u64, upper: bool) -> (c: char)
    requires
        d < 16,
    ensures
        c == digit_char(d as nat, upper),
{
    proof {
        reveal_strlit("0123456789ABCDEF");
        reveal_strlit("0123456789abcdef");
    }
    if upper {
        "0123456789ABCDEF".get_char(d as usize)
    } else {
        "0123456789abcdef".get_char(d as usize)
    }
}

/// Appends the decimal representation of `n` to `out`.
pub fn push_decimal(out: &mut String, n: u64)
    ensures
        final(out)@ == old(out)@ + decimal(n as nat),
    decreases n,
{
    if n < 10 {
        let c = digit(n, false);
        push_char(out, c);
        assert(old(out)@.push(c) =~= old(out)@ + decimal(n as nat));
    } else {
        push_decimal(out, n / 10);
        let c = digit(n % 10, false);
        push_char(out, c);
        assert(old(out)@ + decimal(n as nat) =~= old(out)@ + decimal((n / 10) as nat) + seq![c]);
    }
}

/// Appends the decimal representation of a signed `n` to `out`.
pub fn push_decimal_i64(out: &mut String, n: i64)
    ensures
        final(out)@ == old(out)@ + decimal_signed(n as int),
{
    if n < 0 {
        push_char(out, '-');
        let m: u64 = if n == i64::MIN {
            9223372036854775808u64
        } else {
            (-n) as u64
        };
        push_decimal(out, m);
        assert(final(out)@ =~= old(out)@ + decimal_signed(n as int));
    } else {
        push_decimal(out, n as u64);
    }
}

/// Appends the last `width` hexadecimal digits of `x` to `out`.
pub fn push_hex_fixed(out: &mut String, x: u64, width: u32, upper: bool)
    ensures
        final(out)@ == old(out)@ + hex_fixed(x as nat, width as nat, upper),
    decreases width,
{
    if width > 0 {
        push_hex_fixed(out, x / 16, width - 1, upper);
        let c = digit(x % 16, upper);
        push_char(out, c);
        assert(old(out)@ + hex_fixed(x as nat, width as nat, upper) =~= old(out)@ + hex_fixed(
            (x / 16) as nat,
            (width - 1) as nat,
            upper,
        ) + seq![c]);
    } else {
        assert(old(out)@ + hex_fixed(x as nat, 0, upper) =~= old(out)@);
    }
}

} // verus!
