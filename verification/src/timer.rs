//! Conversion of a monotonic microsecond count into seconds and microseconds.

use vstd::prelude::*;
use crate::config::MICRO_PER_SEC;

verus! {

/// A point in time as whole seconds plus the microseconds left over.
#[derive(Debug, Clone, Copy, PartialEq, Eq, Structural)]
pub struct TimeVal {
    /// Whole seconds.
    pub sec: usize,
    /// Microseconds beyond the whole seconds, always below one million.
    pub usec: usize,
}

/// The pair of seconds and microseconds that stands for `us` microseconds.
pub open spec fn sec_usec_of(us: int) -> (int, int) {
    (us / 1_000_000, us % 1_000_000)
}

impl TimeVal {
    /// The number of microseconds that this value stands for.
    pub open spec fn micros(self) -> int {
        self.sec * 1_000_000 + self.usec
    }
}

/// Splits a microsecond count into whole seconds and leftover microseconds.
pub fn to_sec_usec(us: usize) -> (r: (usize, usize))
    ensures
        r.0 == sec_usec_of(us as int).0,
        r.1 == sec_usec_of(us as int).1,
        r.0 * 1_000_000 + r.1 == us,
        r.1 < 1_000_000,
{
    (us / MICRO_PER_SEC, us % MICRO_PER_SEC)
}

/// Splitting a count and putting the two parts together again gives the
/// count back, and the microsecond part stays below one million.
pub proof fn lemma_sec_usec_recombines(us: int)
    requires
        0 <= us,
    ensures
        sec_usec_of(us).0 == us / 1_000_000,
        sec_usec_of(us).1 == us % 1_000_000,
        sec_usec_of(us).0 * 1_000_000 + sec_usec_of(us).1 == us,
        0 <= sec_usec_of(us).1 < 1_000_000,
        0 <= sec_usec_of(us).0 <= us,
{
}

} // verus!
