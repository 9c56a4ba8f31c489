//! Frame pacing for the main loop.
//!
//! The loop itself (reading the clock, sleeping, calling the body) belongs
//! to the caller; this module decides what it does after each turn.
use vstd::prelude::*;

verus! {

/// Nanoseconds in a second.
pub const ONE_SEC: u64 = 1_000_000_000;

/// Turns per second the loop aims at.
pub const FRAME_RATE: u64 = 60;

/// The time one turn may take, in nanoseconds, with a little slack for
/// waking up.
pub const ONE_FRAME: u64 = ONE_SEC / FRAME_RATE - 1000;

/// What the loop body answers after a turn.
#[derive(Debug, PartialEq, Eq, Structural, Clone, Copy)]
pub enum Return {
    /// Stop the main loop.
    Exit,
    /// Continue.
    Next,
}

/// What the loop does after a turn.
#[derive(Debug, PartialEq, Eq, Structural, Clone, Copy)]
pub enum Step {
    /// Leave the loop.
    Stop,
    /// Sleep this many nanoseconds, then start the next turn.
    Sleep(u64),
}

/// The rest of the turn's time budget once `elapsed` nanoseconds are spent.
pub open spec fn pause_spec(elapsed: u64) -> u64 {
    if elapsed < ONE_FRAME {
        (ONE_FRAME - elapsed) as u64
    } else {
        0
    }
}

/// Decides the next step from the body's answer and the nanoseconds the
/// turn has taken: stop on `Exit`, else sleep out the rest of the turn.
pub fn next_step(answer: Return, elapsed: u64) -> (r: Step)
    ensures
        answer == Return::Exit ==> r == Step::Stop,
        answer == Return::Next ==> r == Step::Sleep(pause_spec(elapsed)),
{
    match answer {
        Return::Exit => Step::Stop,
        Return::Next => {
            if elapsed < ONE_FRAME {
                Step::Sleep(ONE_FRAME - elapsed)
            } else {
                Step::Sleep(0)
            }
        },
    }
}

} // verus!
