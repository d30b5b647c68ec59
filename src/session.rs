//! The decisions of the frame loop: when to set the terminal up, when to
//! draw a frame, and when to stop and restore the terminal. The loop itself,
//! with its waiting and its terminal, is run by the caller.
use vstd::prelude::*;

verus! {

/// Where the loop stands.
#[derive(Debug, Clone, Copy, PartialEq, Eq, Structural)]
pub enum Phase {
    /// Not started: the terminal is untouched.
    Idle,
    /// Drawing frames while the run flag stays up.
    Running,
    /// The run flag was seen down and the terminal restored.
    Stopped,
}

/// What the caller does next.
#[derive(Debug, Clone, Copy, PartialEq, Eq, Structural)]
pub enum Step {
    /// Hide the cursor, switch to the alternate screen and register the
    /// interrupt handler.
    Setup,
    /// Draw one frame, then wait for the next frame boundary.
    Tick,
    /// Show the cursor again and leave the alternate screen.
    Restore,
    /// Nothing is left to do.
    Done,
}

/// The next phase and step, given the phase and the run flag as read at the
/// boundary between frames.
pub open spec fn step_of(phase: Phase, running: bool) -> (Phase, Step) {
    match phase {
        Phase::Idle => (Phase::Running, Step::Setup),
        Phase::Running => if running {
            (Phase::Running, Step::Tick)
        } else {
            (Phase::Stopped, Step::Restore)
        },
        Phase::Stopped => (Phase::Stopped, Step::Done),
    }
}

/// Decides the next step from the phase and the run flag.
pub fn next_step(phase: Phase, running: bool) -> (r: (Phase, Step))
    ensures
        r == step_of(phase, running),
{
    match phase {
        Phase::Idle => (Phase::Running, Step::Setup),
        Phase::Running => if running {
            (Phase::Running, Step::Tick)
        } else {
            (Phase::Stopped, Step::Restore)
        },
        Phase::Stopped => (Phase::Stopped, Step::Done),
    }
}

/// The steps taken from `phase` when the run flag reads `flags`, one reading
/// per boundary.
pub open spec fn run(phase: Phase, flags: Seq<bool>) -> Seq<Step>
    decreases flags.len(),
{
    if flags.len() == 0 {
        seq![]
    } else {
        let (next, step) = step_of(phase, flags[0]);
        seq![step] + run(next, flags.skip(1))
    }
}

/// Once the run flag reads down at a boundary, no frame is drawn any more:
/// a stop that comes during a frame or a wait lets at most the frame under
/// way finish. The terminal is restored at that very boundary.
pub proof fn lemma_stop_ends_ticks(flags: Seq<bool>, k: int)
    requires
        0 <= k < flags.len(),
        !flags[k],
        forall|i: int| 0 <= i < k ==> #[trigger] flags[i],
    ensures
        run(Phase::Running, flags).len() == flags.len(),
        run(Phase::Running, flags)[k] == Step::Restore,
        forall|j: int| k <= j < flags.len() ==> #[trigger] run(Phase::Running, flags)[j] != Step::Tick,
    decreases k,
{
    lemma_run_len(Phase::Running, flags);
    if k == 0 {
        lemma_stopped_is_done(flags.skip(1));
        let rest = run(Phase::Stopped, flags.skip(1));
        assert forall|j: int| k <= j < flags.len() implies #[trigger] run(Phase::Running, flags)[j]
            != Step::Tick by {
            if j > 0 {
                assert(run(Phase::Running, flags)[j] == rest[j - 1]);
            }
        }
    } else {
        let tail = flags.skip(1);
        assert forall|i: int| 0 <= i < k - 1 implies #[trigger] tail[i] by {
            assert(flags[i + 1]);
        }
        lemma_stop_ends_ticks(tail, k - 1);
        assert forall|j: int| k <= j < flags.len() implies #[trigger] run(Phase::Running, flags)[j]
            != Step::Tick by {
            assert(run(Phase::Running, flags)[j] == run(Phase::Running, tail)[j - 1]);
        }
    }
}

/// One step per reading of the flag.
proof fn lemma_run_len(phase: Phase, flags: Seq<bool>)
    ensures
        run(phase, flags).len() == flags.len(),
    decreases flags.len(),
{
    if flags.len() > 0 {
        lemma_run_len(step_of(phase, flags[0]).0, flags.skip(1));
    }
}

/// A stopped loop only reports that it is done.
proof fn lemma_stopped_is_done(flags: Seq<bool>)
    ensures
        run(Phase::Stopped, flags).len() == flags.len(),
        forall|j: int| 0 <= j < flags.len() ==> #[trigger] run(Phase::Stopped, flags)[j] == Step::Done,
    decreases flags.len(),
{
    if flags.len() > 0 {
        lemma_stopped_is_done(flags.skip(1));
        let rest = run(Phase::Stopped, flags.skip(1));
        assert forall|j: int| 0 <= j < flags.len() implies #[trigger] run(Phase::Stopped, flags)[j]
            == Step::Done by {
            if j > 0 {
                assert(run(Phase::Stopped, flags)[j] == rest[j - 1]);
            }
        }
    }
}

} // verus!
