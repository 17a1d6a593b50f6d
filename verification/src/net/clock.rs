//! Points in time, as milliseconds.

use smoltcp::time::{Duration, Instant};
use vstd::prelude::*;

verus! {

/// The absolute value of `x`.
pub open spec fn abs(x: int) -> int {
    if x < 0 {
        -x
    } else {
        x
    }
}

/// The time between two points in time, by `smoltcp`'s subtraction of one `Instant` from another.
/// The contract says that the result is the distance in milliseconds, whichever point comes first.
/// The subtraction must not overflow, nor its absolute value.
#[verifier::external_body]
pub(crate) fn instant_distance(a: i64, b: i64) -> (millis: u64)
    requires
        i64::MIN < a - b <= i64::MAX,
    ensures
        millis == abs(a - b),
{
    (Instant::from_millis(a) - Instant::from_millis(b)).total_millis()
}

/// A point in time that lies `millis` after another, by `smoltcp`'s addition of a `Duration` to an
/// `Instant`. The contract says that the result is the sum, which must not overflow.
#[verifier::external_body]
pub(crate) fn instant_after(at: i64, millis: u64) -> (later: i64)
    requires
        at + millis <= i64::MAX,
        millis <= i64::MAX,
    ensures
        later == at + millis,
{
    let mut later = Instant::from_millis(at);
    later += Duration::from_millis(millis);
    later.total_millis()
}

/// The clock of the network stack.
#[derive(Clone, Copy, Debug)]
pub struct SmoltcpTimer {}

impl SmoltcpTimer {
    /// A clock that goes by the system's timer.
    pub fn new() -> (timer: Self) {
        SmoltcpTimer {  }
    }

    /// The point in time at which the system's timer reads `elapsed_ms`: the same number, taken
    /// as a signed one.
    pub fn now(&self, elapsed_ms: u64) -> (now: i64)
        ensures
            now == if elapsed_ms <= i64::MAX {
                elapsed_ms as int
            } else {
                elapsed_ms - 0x1_0000_0000_0000_0000
            },
    {
        assert(elapsed_ms as i64 == if elapsed_ms <= 0x7fff_ffff_ffff_ffffu64 {
            elapsed_ms as int
        } else {
            elapsed_ms - 0x1_0000_0000_0000_0000
        }) by (bit_vector);
        elapsed_ms as i64
    }
}

/// An absolute value is the number or its opposite, whichever is not negative.
pub proof fn law_abs(x: int)
    ensures
        x >= 0 ==> abs(x) == x,
        x <= 0 ==> abs(x) == -x,
{
}

} // verus!
