//! Identifiers made of the time of creation and a random number.
use vstd::prelude::*;

verus! {

/// A point in time: seconds since the Unix epoch and nanoseconds past them.
#[derive(Debug, PartialEq, Eq, Structural, Hash, PartialOrd, Ord, Copy, Clone)]
pub struct Timespec {
    pub sec: i64,
    pub nsec: i32,
}

/// Relies on time::get_time: the current time, whose nanoseconds
/// `Timespec::new` checks to lie in `[0, 1_000_000_000)`.
#[verifier::external_body]
fn now() -> (r: (i64, i32))
    ensures
        0 <= r.1 < 1_000_000_000,
{
    let t = time::get_time();
    (t.sec, t.nsec)
}

/// Relies on rand::random: a random `u32` from the thread's generator.
#[verifier::external_body]
fn random_u32() -> u32 {
    rand::random::<u32>()
}

/// A unique identifier: when it was made, and a random number.
#[derive(Debug, PartialEq, Eq, Structural, Hash, PartialOrd, Ord, Copy, Clone)]
pub struct Id {
    /// Created time.
    pub time: Timespec,
    /// Random number.
    pub random: u32,
}

impl Id {
    /// Creates an identifier from the current time and a random number.
    pub fn new() -> (r: Id)
        ensures
            0 <= r.time.nsec < 1_000_000_000,
    {
        let (sec, nsec) = now();
        Id { time: Timespec { sec, nsec }, random: random_u32() }
    }
}

} // verus!
