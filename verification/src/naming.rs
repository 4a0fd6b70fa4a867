//! Names derived from a program: the scheduled task's name and the cached
//! icon's file name.

use vstd::prelude::*;
use crate::text::{digit_char, lemma_digit_values, lemma_trim_fixed, lemma_trim_shape, trim_by, CharClass, hex_lower_bytes, is_ascii_alphanumeric, is_ascii_alphanumeric_exec, substring, trim_char, trim_char_spec};
use crate::model::opt_view;
use crate::unicode::push_char;

verus! {

/// The 32-byte BLAKE3 digest of `input`.
pub uninterp spec fn blake3_digest(input: Seq<u8>) -> Seq<u8>;

/// Wraps `blake3::hash` followed by `Hash::to_hex`: the result is the
/// lower-case hexadecimal form (two digits per byte) of the BLAKE3 digest of
/// `input`, which is 32 bytes long. The digest itself is left unstated.
#[verifier::external_body]
fn blake3_hex(input: &[u8]) -> (hex: String)
    ensures
        hex@ == hex_lower_bytes(blake3_digest(input@)),
        hex@.len() == 64,
{
    blake3::hash(input).to_hex().to_string()
}

/// The character a task name keeps for `c`: itself when it is an ASCII
/// letter, digit or `_`, otherwise `_`.
pub open spec fn task_name_char(c: char) -> char {
    if is_ascii_alphanumeric(c) || c == '_' {
        c
    } else {
        '_'
    }
}

/// A display name made safe for a task name: every other character becomes
/// `_`, leading and trailing `_` are dropped, and `App` stands in when
/// nothing is left.
pub open spec fn sanitize_spec(name: Seq<char>) -> Seq<char> {
    let t = trim_char_spec(name.map_values(|c: char| task_name_char(c)), '_');
    if t.len() == 0 {
        "App"@
    } else {
        t
    }
}

/// The bytes that identify a target: the UTF-8 of the target path, then, when
/// there are arguments, a line feed and the UTF-8 of the arguments.
pub open spec fn identity_bytes(target: Seq<char>, args: Option<Seq<char>>) -> Seq<u8> {
    match args {
        Some(a) => vstd::utf8::encode_utf8(target) + seq![10u8] + vstd::utf8::encode_utf8(a),
        None => vstd::utf8::encode_utf8(target),
    }
}

/// Hexadecimal BLAKE3 digest of a target's identity bytes.
pub open spec fn identity_hex(target: Seq<char>, args: Option<Seq<char>>) -> Seq<char> {
    hex_lower_bytes(blake3_digest(identity_bytes(target, args)))
}

/// `elevated_<sanitized name>_<first 10 hex digits of the identity hash>`.
pub open spec fn task_name_spec(name: Seq<char>, target: Seq<char>, args: Option<Seq<char>>) -> Seq<
    char,
> {
    "elevated_"@ + sanitize_spec(name) + seq!['_'] + identity_hex(target, args).take(10)
}

/// `<first 16 hex digits of the identity hash>.png`.
pub open spec fn icon_file_name_spec(target: Seq<char>, args: Option<Seq<char>>) -> Seq<char> {
    identity_hex(target, args).take(16) + ".png"@
}

/// Replaces every character outside `[A-Za-z0-9_]` with `_`, trims `_`
/// from both ends, and falls back to `App` for an empty result.
pub fn sanitize_for_task_name(name: &str) -> (out: String)
    ensures
        out@ == sanitize_spec(name@),
{
    let n = name.unicode_len();
    let mut mapped = String::new();
    let mut i: usize = 0;
    while i < n
        invariant
            n == name@.len(),
            i <= n,
            mapped@ == name@.take(i as int).map_values(|c: char| task_name_char(c)),
        decreases n - i,
    {
        let ch = name.get_char(i);
        if is_ascii_alphanumeric_exec(ch) || ch == '_' {
            push_char(&mut mapped, ch);
        } else {
            push_char(&mut mapped, '_');
        }
        assert(name@.take(i + 1).map_values(|c: char| task_name_char(c)) =~= name@.take(
            i as int,
        ).map_values(|c: char| task_name_char(c)).push(task_name_char(ch)));
        i = i + 1;
    }
    assert(name@.take(n as int) =~= name@);
    let trimmed = trim_char(mapped.as_str(), '_');
    if trimmed.as_str().unicode_len() == 0 {
        String::from_str("App")
    } else {
        trimmed
    }
}

/// Appends the bytes of `s` to `out`.
fn push_bytes(out: &mut Vec<u8>, s: &str)
    ensures
        final(out)@ == old(out)@ + vstd::utf8::encode_utf8(s@),
{
    let bytes = s.as_bytes();
    let n = bytes.len();
    let mut i: usize = 0;
    while i < n
        invariant
            n == bytes@.len(),
            bytes@ == vstd::utf8::encode_utf8(s@),
            i <= n,
            out@ == old(out)@ + bytes@.take(i as int),
        decreases n - i,
    {
        out.push(bytes[i]);
        assert(bytes@.take(i + 1) =~= bytes@.take(i as int).push(bytes@[i as int]));
        i = i + 1;
    }
    assert(bytes@.take(n as int) =~= bytes@);
}

/// Hexadecimal BLAKE3 digest of the target path followed, when there are
/// arguments, by a line feed and the arguments.
pub fn identity_hash_hex(target: &str, args: Option<&str>) -> (hex: String)
    ensures
        hex@ == identity_hex(target@, opt_view(args)),
        hex@.len() == 64,
{
    let mut input: Vec<u8> = Vec::new();
    push_bytes(&mut input, target);
    match args {
        Some(a) => {
            input.push(10u8);
            push_bytes(&mut input, a);
        },
        None => {},
    }
    assert(input@ =~= identity_bytes(target@, opt_view(args)));
    blake3_hex(input.as_slice())
}

/// Name of the scheduled task for a program:
/// `elevated_<sanitized name>_<10 hex digits>`, the digits identifying the
/// target and its arguments.
pub fn task_name_for(name: &str, target: &str, args: Option<&str>) -> (task: String)
    ensures
        task@ == task_name_spec(name@, target@, opt_view(args)),
        task@.len() == 9 + sanitize_spec(name@).len() + 11,
        task@.take(9) == "elevated_"@,
        forall|i: int|
            0 <= i < task@.len() ==> is_ascii_alphanumeric(#[trigger] task@[i]) || task@[i] == '_',
{
    let hex = identity_hash_hex(target, args);
    let short = substring(hex.as_str(), 0, 10);
    let mut task = String::from_str("elevated_");
    let clean = sanitize_for_task_name(name);
    task.append(clean.as_str());
    push_char(&mut task, '_');
    task.append(short.as_str());
    assert(task@ =~= task_name_spec(name@, target@, opt_view(args)));
    proof {
        lemma_task_name_shape(name@, target@, opt_view(args));
    }
    task
}

/// File name of the cached PNG icon for a target: 16 hex digits of the
/// identity hash and `.png`.
pub fn icon_file_name_for(target: &str, args: Option<&str>) -> (file: String)
    ensures
        file@ == icon_file_name_spec(target@, opt_view(args)),
{
    let hex = identity_hash_hex(target, args);
    let mut file = substring(hex.as_str(), 0, 16);
    file.append(".png");
    file
}


/// A sanitized name is never empty, holds only ASCII letters, digits and
/// `_`, and neither starts nor ends with `_`.
pub proof fn law_sanitized_name_shape(name: Seq<char>)
    ensures
        sanitize_spec(name).len() > 0,
        forall|i: int|
            0 <= i < sanitize_spec(name).len() ==> is_ascii_alphanumeric(
                #[trigger] sanitize_spec(name)[i],
            ) || sanitize_spec(name)[i] == '_',
        sanitize_spec(name)[0] != '_',
        sanitize_spec(name).last() != '_',
{
    reveal_strlit("App");
    let m = name.map_values(|c: char| task_name_char(c));
    let k = CharClass::Exactly('_');
    lemma_trim_shape(m, k);
    let t = trim_by(m, k);
    assert(trim_char_spec(m, '_') == t);
    if t.len() > 0 {
        let (a, b) = choose|a: int, b: int| 0 <= a <= b <= m.len() && #[trigger] m.subrange(a, b) == t;
        assert forall|i: int| 0 <= i < t.len() implies is_ascii_alphanumeric(#[trigger] t[i])
            || t[i] == '_' by {
            assert(t[i] == m[a + i]);
        }
    }
}

/// Sanitizing a sanitized name changes nothing.
pub proof fn law_sanitize_idempotent(name: Seq<char>)
    ensures
        sanitize_spec(sanitize_spec(name)) == sanitize_spec(name),
{
    let t = sanitize_spec(name);
    law_sanitized_name_shape(name);
    let m = t.map_values(|c: char| task_name_char(c));
    assert(m =~= t);
    let k = CharClass::Exactly('_');
    lemma_trim_fixed(t, k);
    assert(trim_char_spec(m, '_') == t);
}


proof fn lemma_hex_lower_bytes_alnum(b: Seq<u8>)
    ensures
        hex_lower_bytes(b).len() == 2 * b.len(),
        forall|i: int|
            0 <= i < hex_lower_bytes(b).len() ==> is_ascii_alphanumeric(
                #[trigger] hex_lower_bytes(b)[i],
            ),
    decreases b.len(),
{
    lemma_digit_values();
    if b.len() > 0 {
        lemma_hex_lower_bytes_alnum(b.drop_first());
        let h = hex_lower_bytes(b);
        let rest = hex_lower_bytes(b.drop_first());
        let x = (b[0] / 16) as nat;
        let y = (b[0] % 16) as nat;
        assert(is_ascii_alphanumeric(digit_char(x, false)));
        assert(is_ascii_alphanumeric(digit_char(y, false)));
        assert forall|i: int| 0 <= i < h.len() implies is_ascii_alphanumeric(#[trigger] h[i]) by {
            if i >= 2 {
                assert(h[i] == rest[i - 2]);
            }
        }
    }
}

proof fn lemma_task_name_shape(name: Seq<char>, target: Seq<char>, args: Option<Seq<char>>)
    requires
        identity_hex(target, args).len() == 64,
    ensures
        task_name_spec(name, target, args).len() == 9 + sanitize_spec(name).len() + 11,
        task_name_spec(name, target, args).take(9) == "elevated_"@,
        forall|i: int|
            0 <= i < task_name_spec(name, target, args).len() ==> is_ascii_alphanumeric(
                #[trigger] task_name_spec(name, target, args)[i],
            ) || task_name_spec(name, target, args)[i] == '_',
{
    reveal_strlit("elevated_");
    law_sanitized_name_shape(name);
    let hex = identity_hex(target, args);
    lemma_hex_lower_bytes_alnum(blake3_digest(identity_bytes(target, args)));
    let t = task_name_spec(name, target, args);
    let san = sanitize_spec(name);
    assert(t.take(9) =~= "elevated_"@);
    assert forall|i: int| 0 <= i < t.len() implies is_ascii_alphanumeric(#[trigger] t[i]) || t[i]
        == '_' by {
        if i < 9 {
            assert(t[i] == "elevated_"@[i]);
        } else if i < 9 + san.len() {
            assert(t[i] == san[i - 9]);
        } else if i == 9 + san.len() {
        } else {
            assert(t[i] == hex[i - 10 - san.len()]);
        }
    }
}

} // verus!
