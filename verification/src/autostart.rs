//! Start with Windows: the decisions around the `Run` registry value.

use vstd::prelude::*;
use crate::text::{hex_fixed, push_hex_fixed};
use crate::unicode::push_char;

verus! {

/// The per-user registry key whose values Windows starts at log-on.
pub const RUN_KEY_PATH: &'static str = "Software\\Microsoft\\Windows\\CurrentVersion\\Run";

/// Name of the application's value under the `Run` key.
pub const AUTOSTART_VALUE_NAME: &'static str = "SkipUAC";

/// The registry's success code.
pub const ERROR_SUCCESS: u32 = 0;

/// The registry's code for a value that does not exist.
pub const ERROR_FILE_NOT_FOUND: u32 = 2;

/// The registry's type code for a string value.
pub const REG_SZ: u32 = 1;

/// `<api> failed: 0x<code as 8 lower-case hex digits>`.
pub open spec fn registry_error_spec(api: Seq<char>, code: u32) -> Seq<char> {
    api + " failed: 0x"@ + hex_fixed(code as nat, 8, false)
}

/// The message for a failed registry call.
pub fn registry_error(api: &str, code: u32) -> (r: String)
    ensures
        r@ == registry_error_spec(api@, code),
{
    let mut r = String::from_str(api);
    r.append(" failed: 0x");
    push_hex_fixed(&mut r, code as u64, 8, false);
    r
}

/// Outcome of opening the `Run` key with the given status code.
pub fn open_key_outcome(code: u32) -> (r: Result<(), String>)
    ensures
        code == 0 ==> r is Ok,
        code != 0 ==> (r matches Err(e) && e@ == registry_error_spec("RegOpenKeyExW"@, code)),
{
    if code == ERROR_SUCCESS {
        Ok(())
    } else {
        Err(registry_error("RegOpenKeyExW", code))
    }
}

/// Whether autostart is on, from the status, type and byte length that the
/// query of the value reported: a missing value means off, another failure
/// is an error, and otherwise it is on when the value is a non-empty string.
pub fn query_outcome(code: u32, value_type: u32, byte_len: u32) -> (r: Result<bool, String>)
    ensures
        code == 2 ==> r == Ok::<bool, String>(false),
        code != 2 && code != 0 ==> (r matches Err(e) && e@ == registry_error_spec(
            "RegQueryValueExW"@,
            code,
        )),
        code == 0 ==> r == Ok::<bool, String>(value_type == 1 && byte_len > 1),
{
    if code == ERROR_FILE_NOT_FOUND {
        return Ok(false);
    }
    if code != ERROR_SUCCESS {
        return Err(registry_error("RegQueryValueExW", code));
    }
    Ok(value_type == REG_SZ && byte_len > 1)
}

/// Outcome of writing the value.
pub fn set_outcome(code: u32) -> (r: Result<(), String>)
    ensures
        code == 0 ==> r is Ok,
        code != 0 ==> (r matches Err(e) && e@ == registry_error_spec("RegSetValueExW"@, code)),
{
    if code != ERROR_SUCCESS {
        Err(registry_error("RegSetValueExW", code))
    } else {
        Ok(())
    }
}

/// Outcome of deleting the value; a value that was not there is fine.
pub fn delete_outcome(code: u32) -> (r: Result<(), String>)
    ensures
        code == 0 || code == 2 ==> r is Ok,
        code != 0 && code != 2 ==> (r matches Err(e) && e@ == registry_error_spec(
            "RegDeleteValueW"@,
            code,
        )),
{
    if code != ERROR_SUCCESS && code != ERROR_FILE_NOT_FOUND {
        Err(registry_error("RegDeleteValueW", code))
    } else {
        Ok(())
    }
}

/// The bytes of a `REG_SZ` value: each UTF-16 unit, low byte first.
pub open spec fn le_bytes_spec(units: Seq<u16>) -> Seq<u8> {
    Seq::new(
        (2 * units.len()) as nat,
        |i: int|
            if i % 2 == 0 {
                (units[i / 2] % 256) as u8
            } else {
                (units[i / 2] / 256) as u8
            },
    )
}

/// Lays UTF-16 units out as bytes, low byte first, as a `REG_SZ` value is
/// stored.
pub fn wide_to_le_bytes(units: &Vec<u16>) -> (bytes: Vec<u8>)
    ensures
        bytes@ == le_bytes_spec(units@),
{
    let mut bytes: Vec<u8> = Vec::new();
    let mut i: usize = 0;
    while i < units.len()
        invariant
            i <= units@.len(),
            bytes@.len() == 2 * i,
            forall|j: int| 0 <= j < 2 * i ==> #[trigger] bytes@[j] == le_bytes_spec(units@)[j],
        decreases units@.len() - i,
    {
        let u = units[i];
        bytes.push((u % 256) as u8);
        bytes.push((u / 256) as u8);
        assert((2 * i) / 2 == i && (2 * i + 1) / 2 == i && (2 * i) % 2 == 0 && (2 * i + 1) % 2 == 1)
            by (nonlinear_arith);
        i = i + 1;
    }
    assert(bytes@ =~= le_bytes_spec(units@));
    bytes
}

/// The refusal to turn autostart on from a development build, whose window
/// would load from a development server that is not running at log-on.
pub open spec fn dev_build_refusal() -> Seq<char> {
    "Autostart is disabled for dev/debug builds. Please enable it from the installed release build (tauri build), or disable autostart and re-enable after installation."@
}

/// `Some(message)` when the request must be refused: enabling from a
/// development build.
pub fn autostart_refusal(enabled: bool, debug_build: bool) -> (r: Option<String>)
    ensures
        enabled && debug_build ==> (r matches Some(m) && m@ == dev_build_refusal()),
        !(enabled && debug_build) ==> r is None,
{
    if enabled && debug_build {
        Some(
            String::from_str(
                "Autostart is disabled for dev/debug builds. Please enable it from the installed release build (tauri build), or disable autostart and re-enable after installation.",
            ),
        )
    } else {
        None
    }
}

/// The command stored for autostart: the executable path in double quotes,
/// since it may contain spaces.
pub fn quoted_command(exe: &str) -> (r: String)
    ensures
        r@ == seq!['"'] + exe@ + seq!['"'],
{
    let mut r = String::new();
    push_char(&mut r, '"');
    r.append(exe);
    push_char(&mut r, '"');
    assert(r@ =~= seq!['"'] + exe@ + seq!['"']);
    r
}

} // verus!
