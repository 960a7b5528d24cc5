//! Ending the engine's process.
use vstd::prelude::*;

verus! {

/// How long the process group has to end by itself, in milliseconds.
pub const STOP_GRACE_MS: u64 = 6000;

/// How long to wait between two looks, in milliseconds.
pub const STOP_INTERVAL_MS: u64 = 150;

/// What to do next with a process that was asked to terminate.
#[derive(Clone, Copy, PartialEq, Eq, Structural)]
pub enum StopStep {
    /// It has ended.
    Done,
    /// Its time is up: kill the process group, and wait for it.
    Kill,
    /// Look again after the interval.
    Wait,
}

/// What to do with a process that was asked to terminate `elapsed_ms` milliseconds ago. It is
/// killed only once the grace period is over, and only if it has not ended.
pub open spec fn stop_step(exited: bool, elapsed_ms: u64) -> StopStep {
    if exited {
        StopStep::Done
    } else if elapsed_ms >= STOP_GRACE_MS {
        StopStep::Kill
    } else {
        StopStep::Wait
    }
}

/// What to do with a process that was asked to terminate `elapsed_ms` milliseconds ago.
pub fn stop_child(exited: bool, elapsed_ms: u64) -> (s: StopStep)
    ensures
        s == stop_step(exited, elapsed_ms),
{
    if exited {
        StopStep::Done
    } else if elapsed_ms >= STOP_GRACE_MS {
        StopStep::Kill
    } else {
        StopStep::Wait
    }
}

/// A look at the process that was asked to terminate.
pub struct Look {
    pub exited: bool,
    pub elapsed_ms: u64,
}

/// The last step of a shutdown that looks at the process again and again until a look does not
/// end in waiting.
pub open spec fn shutdown_end(looks: Seq<Look>) -> StopStep
    decreases looks.len(),
{
    if looks.len() == 0 {
        StopStep::Wait
    } else if stop_step(looks[0].exited, looks[0].elapsed_ms) == StopStep::Wait {
        shutdown_end(looks.drop_first())
    } else {
        stop_step(looks[0].exited, looks[0].elapsed_ms)
    }
}

/// A process that is seen to have ended within the grace period is never killed; one that is
/// not is killed at the first look after it. Either way the shutdown comes to an end.
pub proof fn law_kill_is_the_last_resort(looks: Seq<Look>, k: int)
    requires
        0 <= k < looks.len(),
        forall|i: int|
            0 <= i < k ==> !(#[trigger] looks[i]).exited && looks[i].elapsed_ms < STOP_GRACE_MS,
        looks[k].exited || looks[k].elapsed_ms >= STOP_GRACE_MS,
    ensures
        shutdown_end(looks) == (if looks[k].exited {
            StopStep::Done
        } else {
            StopStep::Kill
        }),
    decreases k,
{
    if k > 0 {
        assert(!looks[0].exited);
        let rest = looks.drop_first();
        assert forall|i: int| 0 <= i < k - 1 implies !(#[trigger] rest[i]).exited
            && rest[i].elapsed_ms < STOP_GRACE_MS by {
            assert(rest[i] == looks[i + 1]);
        }
        law_kill_is_the_last_resort(rest, k - 1);
    }
}

/// A process that has ended is done with. One that has not is left alone for six seconds, and
/// then killed.
pub proof fn law_six_seconds_of_grace(elapsed_ms: u64)
    ensures
        stop_step(true, elapsed_ms) == StopStep::Done,
        elapsed_ms < 6000 ==> stop_step(false, elapsed_ms) == StopStep::Wait,
        elapsed_ms >= 6000 ==> stop_step(false, elapsed_ms) == StopStep::Kill,
{
}

} // verus!
