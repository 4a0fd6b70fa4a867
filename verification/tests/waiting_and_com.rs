use skipuac::shortcut::{name_step, NameStep, LAST_ATTEMPT};
use skipuac::catalog::record_shortcut;
use skipuac::model::ProgramEntry;
use skipuac::tasks::{com_init_outcome, ComInit, RPC_E_CHANGED_MODE};
use skipuac::wait::{wait_step, WaitAction, WaitPhase, PENDING_CHECKS};

fn entry(id: &str) -> ProgramEntry {
    ProgramEntry {
        id: id.to_string(),
        name: format!("name {id}"),
        source_path: format!("C:\\src\\{id}.lnk"),
        target_path: format!("C:\\bin\\{id}.exe"),
        arguments: None,
        icon_path: format!("C:\\icons\\{id}.png"),
        icon_data_url: None,
        desktop_shortcut_path: None,
        installed: true,
        task_name: format!("elevated_{id}_0123456789"),
        created_at_unix_ms: 7,
    }
}

/// Runs the wait with the pending file present for the first `present`
/// checks; returns the actions taken.
fn run_wait(present: usize) -> Vec<&'static str> {
    let mut phase = WaitPhase::AfterTask { checks: 0 };
    let mut actions = Vec::new();
    let mut seen = 0usize;
    loop {
        let exists = seen < present;
        seen += 1;
        let (next, action) = wait_step(phase, exists);
        phase = next;
        match action {
            WaitAction::Sleep => actions.push("sleep"),
            WaitAction::StartElevated => actions.push("elevate"),
            WaitAction::Finish => {
                actions.push("finish");
                break;
            }
        }
        assert!(actions.len() <= 2 * PENDING_CHECKS as usize + 2);
    }
    actions
}

#[test]
fn wait_ends_at_once_when_the_file_is_gone() {
    assert_eq!(run_wait(0), vec!["finish"]);
}

#[test]
fn wait_sleeps_while_the_file_is_there() {
    assert_eq!(run_wait(3), vec!["sleep", "sleep", "sleep", "finish"]);
}

#[test]
fn wait_falls_back_to_elevation_once() {
    let n = PENDING_CHECKS as usize;
    // Present for every check after the task and for two after the prompt.
    let actions = run_wait(n + 1 + 2);
    assert_eq!(actions.len(), n + 1 + 2 + 1);
    assert!(actions[..n].iter().all(|a| *a == "sleep"));
    assert_eq!(actions[n], "elevate");
    assert_eq!(&actions[n + 1..], &["sleep", "sleep", "finish"]);
}

#[test]
fn wait_gives_up_after_the_second_round() {
    let n = PENDING_CHECKS as usize;
    let actions = run_wait(usize::MAX);
    assert_eq!(actions.len(), 2 * n + 2);
    assert_eq!(actions.iter().filter(|a| **a == "elevate").count(), 1);
    assert_eq!(actions[2 * n + 1], "finish");
}

#[test]
fn wait_after_done_stays_done() {
    let (next, action) = wait_step(WaitPhase::Done, true);
    assert!(matches!(next, WaitPhase::Done));
    assert!(matches!(action, WaitAction::Finish));
}

#[test]
fn com_status_outcomes() {
    assert!(matches!(com_init_outcome(0), ComInit::Initialized));
    assert!(matches!(com_init_outcome(1), ComInit::Initialized));
    assert!(matches!(com_init_outcome(RPC_E_CHANGED_MODE), ComInit::AlreadyInitialized));
    assert_eq!(RPC_E_CHANGED_MODE as u32, 0x8001_0106);
    assert!(matches!(com_init_outcome(-2147024891), ComInit::Failed));
}

#[test]
fn recording_a_shortcut_touches_one_entry() {
    let mut ps = vec![entry("a"), entry("b"), entry("c")];
    record_shortcut(&mut ps, 1, "C:\\Desktop\\b (elevated).lnk".to_string());
    assert_eq!(ps.len(), 3);
    assert_eq!(ps[1].desktop_shortcut_path.as_deref(), Some("C:\\Desktop\\b (elevated).lnk"));
    assert_eq!(ps[1].id, "b");
    assert_eq!(ps[1].task_name, "elevated_b_0123456789");
    assert!(ps[0].desktop_shortcut_path.is_none());
    assert!(ps[2].desktop_shortcut_path.is_none());
}

#[test]
fn name_search_steps() {
    assert!(matches!(name_step(1, false), NameStep::Use));
    assert!(matches!(name_step(1, true), NameStep::Try(2)));
    assert!(matches!(name_step(998, true), NameStep::Try(999)));
    assert!(matches!(name_step(LAST_ATTEMPT, true), NameStep::UseFallback));
    assert!(matches!(name_step(LAST_ATTEMPT, false), NameStep::Use));
    // Walking through taken names ends after LAST_ATTEMPT attempts.
    let mut attempt = 1u32;
    let mut tried = 1u32;
    loop {
        match name_step(attempt, true) {
            NameStep::Try(n) => {
                assert!(n > attempt);
                attempt = n;
                tried += 1;
            }
            NameStep::UseFallback => break,
            NameStep::Use => unreachable!(),
        }
    }
    assert_eq!(tried, LAST_ATTEMPT);
}
