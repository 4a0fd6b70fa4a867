//! The command line the application understands besides starting its
//! window: starting a program's task, and processing pending install or
//! cleanup files.

use vstd::prelude::*;
use crate::model::opt_view;
use crate::shortcut::run_task_arguments_spec;
use crate::text::{same_text, starts_with_spec, strip_prefix, trim, trim_spec};

verus! {

/// What a command line asks for.
pub enum CliAction {
    /// Start the scheduled task with this name.
    RunTask(String),
    /// Process the pending install file at this path.
    InstallPending(String),
    /// Process the pending cleanup file at this path.
    CleanupPending(String),
    /// A recognised flag without a usable value: do nothing and exit.
    Stop,
    /// No recognised flag: open the window.
    OpenWindow,
}

/// The meaning of a command line, over character sequences.
pub enum CliRequest {
    RunTask(Seq<char>),
    InstallPending(Seq<char>),
    CleanupPending(Seq<char>),
    Stop,
    OpenWindow,
}

impl View for CliAction {
    type V = CliRequest;

    open spec fn view(&self) -> CliRequest {
        match self {
            CliAction::RunTask(s) => CliRequest::RunTask(s@),
            CliAction::InstallPending(s) => CliRequest::InstallPending(s@),
            CliAction::CleanupPending(s) => CliRequest::CleanupPending(s@),
            CliAction::Stop => CliRequest::Stop,
            CliAction::OpenWindow => CliRequest::OpenWindow,
        }
    }
}

/// The request of one flag, given as `<flag> <value>` (`separate`) or as
/// `<flag>=<value>`; `kind` picks the flag: 0 run-task, 1 install, 2 cleanup.
pub open spec fn request_of(kind: int, value: Seq<char>) -> CliRequest {
    if kind == 0 {
        CliRequest::RunTask(value)
    } else if kind == 1 {
        CliRequest::InstallPending(value)
    } else {
        CliRequest::CleanupPending(value)
    }
}

pub open spec fn flag_name(kind: int) -> Seq<char> {
    if kind == 0 {
        "--run-task"@
    } else if kind == 1 {
        "--install-pending"@
    } else {
        "--cleanup-pending"@
    }
}

pub open spec fn flag_eq(kind: int) -> Seq<char> {
    flag_name(kind) + seq!['=']
}

/// What argument `a` decides when checked against the flag of `kind`
/// (`next` is the argument after it): `None` when it is not that flag. A
/// bare flag takes the next argument as its value (none: stop); a flag with
/// `=` takes the trimmed rest (blank: stop).
pub open spec fn flag_outcome(kind: int, a: Seq<char>, next: Option<Seq<char>>) -> Option<
    CliRequest,
> {
    if a == flag_name(kind) {
        Some(
            match next {
                Some(n) => request_of(kind, n),
                None => CliRequest::Stop,
            },
        )
    } else if starts_with_spec(a, flag_eq(kind)) {
        let v = trim_spec(a.skip(flag_eq(kind).len() as int));
        Some(
            if v.len() > 0 {
                request_of(kind, v)
            } else {
                CliRequest::Stop
            },
        )
    } else {
        None
    }
}

/// The request of the arguments (program name excluded): the first argument
/// that is one of the flags `--run-task`, `--install-pending`,
/// `--cleanup-pending` (bare, or with `=value`, checked in that order)
/// decides; without any such argument the window opens.
pub open spec fn cli_spec(args: Seq<Seq<char>>) -> CliRequest
    decreases args.len(),
{
    if args.len() == 0 {
        CliRequest::OpenWindow
    } else {
        let a = args[0];
        let next = if args.len() > 1 {
            Some(args[1])
        } else {
            None
        };
        match flag_outcome(0, a, next) {
            Some(r) => r,
            None => match flag_outcome(1, a, next) {
                Some(r) => r,
                None => match flag_outcome(2, a, next) {
                    Some(r) => r,
                    None => cli_spec(args.drop_first()),
                },
            },
        }
    }
}

pub open spec fn args_view(args: Seq<String>) -> Seq<Seq<char>> {
    args.map_values(|s: String| s@)
}

fn make_action(kind: u8, value: String) -> (r: CliAction)
    requires
        kind <= 2,
    ensures
        r@ == request_of(kind as int, value@),
{
    if kind == 0 {
        CliAction::RunTask(value)
    } else if kind == 1 {
        CliAction::InstallPending(value)
    } else {
        CliAction::CleanupPending(value)
    }
}

/// Checks one argument against the flag of `kind`: `Some` of the action it
/// decides (`Stop` when its value is missing or blank), `None` when the
/// argument is not this flag.
fn check_flag(kind: u8, a: &str, next: Option<&String>) -> (r: Option<CliAction>)
    requires
        kind <= 2,
    ensures
        opt_view(r) == flag_outcome(kind as int, a@, opt_view(next)),
{
    let flag = if kind == 0 {
        "--run-task"
    } else if kind == 1 {
        "--install-pending"
    } else {
        "--cleanup-pending"
    };
    let flag_with_eq = if kind == 0 {
        "--run-task="
    } else if kind == 1 {
        "--install-pending="
    } else {
        "--cleanup-pending="
    };
    proof {
        reveal_strlit("--run-task");
        reveal_strlit("--install-pending");
        reveal_strlit("--cleanup-pending");
        reveal_strlit("--run-task=");
        reveal_strlit("--install-pending=");
        reveal_strlit("--cleanup-pending=");
        assert(flag_with_eq@ =~= flag_eq(kind as int));
    }
    if same_text(a, flag) {
        match next {
            Some(n) => Some(make_action(kind, n.clone())),
            None => Some(CliAction::Stop),
        }
    } else {
        match strip_prefix(a, flag_with_eq) {
            Some(rest) => {
                let v = trim(rest.as_str());
                if v.as_str().unicode_len() > 0 {
                    Some(make_action(kind, v))
                } else {
                    Some(CliAction::Stop)
                }
            },
            None => None,
        }
    }
}

/// What the command line (program name excluded) asks for.
pub fn parse_cli(args: &Vec<String>) -> (r: CliAction)
    ensures
        r@ == cli_spec(args_view(args@)),
{
    let ghost all = args_view(args@);
    let mut i: usize = 0;
    assert(all.skip(0) =~= all);
    while i < args.len()
        invariant
            i <= args@.len(),
            all == args_view(args@),
            cli_spec(all.skip(i as int)) == cli_spec(all),
        decreases args@.len() - i,
    {
        let ghost rest = all.skip(i as int);
        assert(rest[0] == args@[i as int]@);
        assert(rest.drop_first() =~= all.skip(i + 1));
        let next: Option<&String> = if i + 1 < args.len() {
            Some(&args[i + 1])
        } else {
            None
        };
        assert(i + 1 < args@.len() ==> rest[1] == args@[i + 1]@);
        let a = args[i].as_str();
        proof {
            reveal_strlit("--run-task");
            reveal_strlit("--install-pending");
            reveal_strlit("--cleanup-pending");
        }
        match check_flag(0, a, next) {
            Some(act) => {
                return act;
            },
            None => {},
        }
        match check_flag(1, a, next) {
            Some(act) => {
                return act;
            },
            None => {},
        }
        match check_flag(2, a, next) {
            Some(act) => {
                return act;
            },
            None => {},
        }
        i = i + 1;
    }
    assert(all.skip(args@.len() as int) =~= Seq::<Seq<char>>::empty());
    CliAction::OpenWindow
}

/// What a desktop shortcut asks for is what it was made for: its arguments
/// are the run-task flag, a space and the task name in double quotes, and a
/// command line made of that flag and the task name (whatever follows)
/// asks to start exactly that task.
pub proof fn law_shortcut_runs_its_task(task: Seq<char>, rest: Seq<Seq<char>>)
    ensures
        run_task_arguments_spec(task) == flag_name(0) + seq![' ', '"'] + task + seq!['"'],
        cli_spec(seq![flag_name(0), task] + rest) == CliRequest::RunTask(task),
{
    reveal_strlit("--run-task \"");
    reveal_strlit("--run-task");
    assert("--run-task \""@ =~= "--run-task"@ + seq![' ', '"']);
    let args = seq![flag_name(0), task] + rest;
    assert(args[0] == flag_name(0));
    assert(args[1] == task);
    assert(flag_outcome(0, args[0], Some(args[1])) == Some(CliRequest::RunTask(task)));
}

/// The pending-file flags are recognised as the helpers are started with
/// them: `--install-pending <path>` and `--cleanup-pending <path>` (as built
/// by `install_pending_args` and `cleanup_pending_args`, once the command
/// line is split) ask to process exactly that file, whatever follows.
pub proof fn law_pending_flags_parse(path: Seq<char>, rest: Seq<Seq<char>>)
    ensures
        cli_spec(seq!["--install-pending"@, path] + rest) == CliRequest::InstallPending(path),
        cli_spec(seq!["--cleanup-pending"@, path] + rest) == CliRequest::CleanupPending(path),
{
    reveal_strlit("--run-task");
    reveal_strlit("--install-pending");
    reveal_strlit("--cleanup-pending");
    let ins = "--install-pending"@;
    let cln = "--cleanup-pending"@;
    assert(flag_name(0) == "--run-task"@);
    assert(flag_name(1) == ins);
    assert(flag_name(2) == cln);
    assert(flag_eq(0)[2] == 'r');
    assert(flag_eq(1)[2] == 'i');
    assert(flag_eq(1).len() == 18);
    assert(flag_eq(2).len() == 18);
    // The install flag.
    let a = seq![ins, path] + rest;
    assert(a[0] == ins && a[1] == path);
    assert(ins[2] != flag_name(0)[2]);
    assert(ins.take(flag_eq(0).len() as int)[2] == ins[2]);
    assert(!starts_with_spec(ins, flag_eq(0)));
    assert(flag_outcome(0, ins, Some(path)) is None);
    assert(flag_outcome(1, ins, Some(path)) == Some(CliRequest::InstallPending(path)));
    // The cleanup flag.
    let b = seq![cln, path] + rest;
    assert(b[0] == cln && b[1] == path);
    assert(cln[2] != flag_name(0)[2]);
    assert(cln.take(flag_eq(0).len() as int)[2] == cln[2]);
    assert(!starts_with_spec(cln, flag_eq(0)));
    assert(flag_outcome(0, cln, Some(path)) is None);
    assert(cln[2] != flag_name(1)[2]);
    assert(!starts_with_spec(cln, flag_eq(1)));
    assert(flag_outcome(1, cln, Some(path)) is None);
    assert(flag_outcome(2, cln, Some(path)) == Some(CliRequest::CleanupPending(path)));
}

/// The result of a flag written with `=`: the trimmed value, or a stop
/// when it is blank.
pub open spec fn eq_form_request(kind: int, value: Seq<char>) -> CliRequest {
    if trim_spec(value).len() > 0 {
        request_of(kind, trim_spec(value))
    } else {
        CliRequest::Stop
    }
}

/// The three flags written as `<flag>=<value>` ask for their action on
/// the trimmed value (a blank value stops), whatever follows.
pub proof fn law_eq_flags_parse(value: Seq<char>, rest: Seq<Seq<char>>)
    ensures
        cli_spec(seq!["--run-task="@ + value] + rest) == eq_form_request(0, value),
        cli_spec(seq!["--install-pending="@ + value] + rest) == eq_form_request(1, value),
        cli_spec(seq!["--cleanup-pending="@ + value] + rest) == eq_form_request(2, value),
{
    reveal_strlit("--run-task");
    reveal_strlit("--install-pending");
    reveal_strlit("--cleanup-pending");
    reveal_strlit("--run-task=");
    reveal_strlit("--install-pending=");
    reveal_strlit("--cleanup-pending=");
    assert(flag_eq(0) =~= "--run-task="@);
    assert(flag_eq(1) =~= "--install-pending="@);
    assert(flag_eq(2) =~= "--cleanup-pending="@);
    let next: Option<Seq<char>> = if rest.len() > 0 {
        Some(rest[0])
    } else {
        None
    };
    // `--run-task=`
    let a0 = "--run-task="@ + value;
    let l0 = seq![a0] + rest;
    assert(l0[0] == a0);
    assert(l0.drop_first() =~= rest);
    assert(a0 != flag_name(0)) by {
        assert(a0.len() != flag_name(0).len());
    }
    assert(a0.take(11) =~= flag_eq(0));
    assert(a0.skip(11) =~= value);
    assert(flag_outcome(0, a0, next) == Some(eq_form_request(0, value)));
    // `--install-pending=`
    let a1 = "--install-pending="@ + value;
    let l1 = seq![a1] + rest;
    assert(l1[0] == a1);
    assert(a1[2] != flag_name(0)[2]);
    assert(a1.take(11)[2] == a1[2]);
    assert(flag_outcome(0, a1, next) is None);
    assert(a1 != flag_name(1)) by {
        assert(a1.len() != flag_name(1).len());
    }
    assert(a1.take(18) =~= flag_eq(1));
    assert(a1.skip(18) =~= value);
    assert(flag_outcome(1, a1, next) == Some(eq_form_request(1, value)));
    // `--cleanup-pending=`
    let a2 = "--cleanup-pending="@ + value;
    let l2 = seq![a2] + rest;
    assert(l2[0] == a2);
    assert(a2[2] != flag_name(0)[2]);
    assert(a2.take(11)[2] == a2[2]);
    assert(flag_outcome(0, a2, next) is None);
    assert(a2[2] != flag_name(1)[2]);
    assert(a2.take(18)[2] == a2[2]);
    assert(flag_outcome(1, a2, next) is None);
    assert(a2 != flag_name(2)) by {
        assert(a2.len() != flag_name(2).len());
    }
    assert(a2.take(18) =~= flag_eq(2));
    assert(a2.skip(18) =~= value);
    assert(flag_outcome(2, a2, next) == Some(eq_form_request(2, value)));
    assert(l0.len() > 1 ==> l0[1] == rest[0]);
    assert(l1.len() > 1 ==> l1[1] == rest[0]);
    assert(l2.len() > 1 ==> l2[1] == rest[0]);
}

/// A command line none of whose arguments starts with `--` asks for
/// nothing but the window.
pub proof fn law_no_flag_opens_window(args: Seq<Seq<char>>)
    requires
        forall|k: int| 0 <= k < args.len() ==> !starts_with_spec(#[trigger] args[k], seq!['-', '-']),
    ensures
        cli_spec(args) == CliRequest::OpenWindow,
    decreases args.len(),
{
    if args.len() > 0 {
        reveal_strlit("--run-task");
        reveal_strlit("--install-pending");
        reveal_strlit("--cleanup-pending");
        let a = args[0];
        assert(!starts_with_spec(a, seq!['-', '-']));
        assert forall|kind: int| 0 <= kind <= 2 implies #[trigger] flag_outcome(kind, a, None) is None
            && flag_outcome(kind, a, Some(args[1])) is None by {
            assert(flag_name(kind)[0] == '-' && flag_name(kind)[1] == '-');
            assert(flag_eq(kind)[0] == '-' && flag_eq(kind)[1] == '-');
            if a == flag_name(kind) {
                assert(a.take(2) =~= seq!['-', '-']);
            }
            if starts_with_spec(a, flag_eq(kind)) {
                assert(a[0] == flag_eq(kind)[0]);
                assert(a[1] == flag_eq(kind)[1]);
                assert(a.take(2) =~= seq!['-', '-']);
            }
        }
        assert(flag_outcome(0, a, None) is None && flag_outcome(0, a, Some(args[1])) is None);
        assert(flag_outcome(1, a, None) is None && flag_outcome(1, a, Some(args[1])) is None);
        assert(flag_outcome(2, a, None) is None && flag_outcome(2, a, Some(args[1])) is None);
        let rest = args.drop_first();
        assert forall|k: int| 0 <= k < rest.len() implies !starts_with_spec(#[trigger] rest[k], seq!['-', '-']) by {
            assert(rest[k] == args[k + 1]);
        }
        law_no_flag_opens_window(rest);
    }
}

} // verus!
