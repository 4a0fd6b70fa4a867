//! Waiting for the elevated helper after an install or removal request:
//! the scheduled task is started first; if the pending file it should
//! consume is still there after the waiting time, the helper is started
//! once more through an elevation prompt and waited for again.

use vstd::prelude::*;

verus! {

/// How many times the pending file is checked while waiting for one start
/// of the helper.
pub const PENDING_CHECKS: u32 = 50;

/// Milliseconds between two checks.
pub const CHECK_INTERVAL_MS: u64 = 100;

/// Where the wait stands.
#[derive(Clone, Copy)]
pub enum WaitPhase {
    /// The scheduled task was started; `checks` checks were made so far.
    AfterTask { checks: u32 },
    /// The helper was started through the elevation prompt; `checks`
    /// checks were made so far.
    AfterPrompt { checks: u32 },
    /// Waiting is over.
    Done,
}

/// What to do next.
#[derive(Clone, Copy)]
pub enum WaitAction {
    /// Sleep for the interval, then check again.
    Sleep,
    /// Start the helper through the elevation prompt, then check again.
    StartElevated,
    /// Stop waiting and read the result.
    Finish,
}

pub open spec fn wait_step_spec(phase: WaitPhase, pending_exists: bool) -> (WaitPhase, WaitAction) {
    match phase {
        WaitPhase::AfterTask { checks } => if !pending_exists {
            (WaitPhase::Done, WaitAction::Finish)
        } else if checks < PENDING_CHECKS {
            (WaitPhase::AfterTask { checks: (checks + 1) as u32 }, WaitAction::Sleep)
        } else {
            (WaitPhase::AfterPrompt { checks: 0 }, WaitAction::StartElevated)
        },
        WaitPhase::AfterPrompt { checks } => if checks < PENDING_CHECKS && pending_exists {
            (WaitPhase::AfterPrompt { checks: (checks + 1) as u32 }, WaitAction::Sleep)
        } else {
            (WaitPhase::Done, WaitAction::Finish)
        },
        WaitPhase::Done => (WaitPhase::Done, WaitAction::Finish),
    }
}

/// The step taken when the pending file was found to exist (or not). After
/// the task, up to `PENDING_CHECKS` checks each followed by a sleep, then
/// one more check; if the file is still there, the elevated start, then up
/// to `PENDING_CHECKS` checks again.
pub fn wait_step(phase: WaitPhase, pending_exists: bool) -> (r: (WaitPhase, WaitAction))
    requires
        phase matches WaitPhase::AfterTask { checks } ==> checks <= PENDING_CHECKS,
        phase matches WaitPhase::AfterPrompt { checks } ==> checks <= PENDING_CHECKS,
    ensures
        r == wait_step_spec(phase, pending_exists),
{
    match phase {
        WaitPhase::AfterTask { checks } => {
            if !pending_exists {
                (WaitPhase::Done, WaitAction::Finish)
            } else if checks < PENDING_CHECKS {
                (WaitPhase::AfterTask { checks: checks + 1 }, WaitAction::Sleep)
            } else {
                (WaitPhase::AfterPrompt { checks: 0 }, WaitAction::StartElevated)
            }
        },
        WaitPhase::AfterPrompt { checks } => {
            if checks < PENDING_CHECKS && pending_exists {
                (WaitPhase::AfterPrompt { checks: checks + 1 }, WaitAction::Sleep)
            } else {
                (WaitPhase::Done, WaitAction::Finish)
            }
        },
        WaitPhase::Done => (WaitPhase::Done, WaitAction::Finish),
    }
}

/// Phases the wait can be in: check counts never pass the limit.
pub open spec fn phase_ok(phase: WaitPhase) -> bool {
    match phase {
        WaitPhase::AfterTask { checks } => checks <= PENDING_CHECKS,
        WaitPhase::AfterPrompt { checks } => checks <= PENDING_CHECKS,
        WaitPhase::Done => true,
    }
}

/// Steps still to come at most: every step lowers it until the wait is over.
pub open spec fn steps_left(phase: WaitPhase) -> nat {
    match phase {
        WaitPhase::AfterTask { checks } => ((PENDING_CHECKS - checks) + PENDING_CHECKS + 2) as nat,
        WaitPhase::AfterPrompt { checks } => ((PENDING_CHECKS - checks) + 1) as nat,
        WaitPhase::Done => 0,
    }
}

/// The wait always ends: each step keeps the phase valid and, unless the
/// wait is over, takes it strictly closer to the end; so at most
/// `2 * PENDING_CHECKS + 2` steps are taken, and the elevation prompt comes
/// only from the task phase, hence at most once.
pub proof fn law_wait_terminates(phase: WaitPhase, pending_exists: bool)
    requires
        phase_ok(phase),
    ensures
        phase_ok(wait_step_spec(phase, pending_exists).0),
        phase !is Done ==> steps_left(wait_step_spec(phase, pending_exists).0) < steps_left(phase),
        steps_left(phase) <= 2 * PENDING_CHECKS + 2,
        wait_step_spec(phase, pending_exists).1 is StartElevated ==> phase is AfterTask
            && wait_step_spec(phase, pending_exists).0 is AfterPrompt,
{
}

} // verus!
