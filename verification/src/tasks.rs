//! Decisions around the Task Scheduler tasks that run programs elevated.

use vstd::prelude::*;
use crate::model::opt_view;
use crate::text::{hex_fixed, push_hex_fixed, trim, trim_spec};

verus! {

/// The start boundary given to the (disabled) time trigger a task needs.
pub const TRIGGER_START_BOUNDARY: &'static str = "2099-01-01T00:00:00";

/// Execution time limit meaning "none".
pub const NO_TIME_LIMIT: &'static str = "PT0S";

/// `<context> (0x<code as 8 upper-case hex digits>): <message>`.
pub open spec fn win_error_spec(context: Seq<char>, code: i32, message: Seq<char>) -> Seq<char> {
    context + " (0x"@ + hex_fixed((code as u32) as nat, 8, true) + "): "@ + message
}

/// The message for a failed Windows call: its context, its HRESULT and the
/// system's text for it.
pub fn win_error_text(context: &str, code: i32, message: &str) -> (r: String)
    ensures
        r@ == win_error_spec(context@, code, message@),
{
    let mut r = String::from_str(context);
    r.append(" (0x");
    push_hex_fixed(&mut r, (code as u32) as u64, 8, true);
    r.append("): ");
    r.append(message);
    r
}

/// The arguments given to a task's action: the trimmed arguments, when
/// there are any and they are not blank.
pub open spec fn task_arguments_spec(arguments: Option<Seq<char>>) -> Option<Seq<char>> {
    match arguments {
        Some(a) => if trim_spec(a).len() > 0 {
            Some(trim_spec(a))
        } else {
            None
        },
        None => None,
    }
}

/// The arguments to set on a task's action, if any.
pub fn task_arguments(arguments: Option<&str>) -> (r: Option<String>)
    ensures
        opt_view(r) == task_arguments_spec(opt_view(arguments)),
{
    match arguments {
        Some(a) => {
            let t = trim(a);
            if t.as_str().unicode_len() > 0 {
                Some(t)
            } else {
                None
            }
        },
        None => None,
    }
}


/// The status `CoInitializeEx` returns when the thread already uses another
/// apartment model (`RPC_E_CHANGED_MODE`).
pub const RPC_E_CHANGED_MODE: i32 = -2147417850i32;

/// What a `CoInitializeEx` status means for the caller.
pub enum ComInit {
    /// COM was initialized here and must be uninitialized afterwards.
    Initialized,
    /// COM is already initialized on this thread with another apartment
    /// model: go on, and leave it initialized.
    AlreadyInitialized,
    /// Initialization failed.
    Failed,
}

/// Reads a `CoInitializeEx` status: the changed-mode status lets the work
/// go on without uninitializing, any other failure (negative status) stops
/// it, and success means uninitializing afterwards.
pub fn com_init_outcome(hr: i32) -> (r: ComInit)
    ensures
        hr == RPC_E_CHANGED_MODE ==> r is AlreadyInitialized,
        hr != RPC_E_CHANGED_MODE && hr < 0 ==> r is Failed,
        hr >= 0 ==> r is Initialized,
{
    if hr == RPC_E_CHANGED_MODE {
        ComInit::AlreadyInitialized
    } else if hr < 0 {
        ComInit::Failed
    } else {
        ComInit::Initialized
    }
}

} // verus!
