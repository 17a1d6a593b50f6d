//! When the network stack works next, and the thread that waits for it.

use vstd::prelude::*;

verus! {

/// What the waiting thread can be asked to do.
#[derive(Clone, Copy, Debug, PartialEq, Eq, Structural)]
pub enum WaitOp {
    /// Wait for a time.
    WaitMs,
    /// Wait for a point in time.
    PollAt,
    /// End.
    Quit,
}

/// What the waiting thread does about a message.
#[derive(Clone, Copy, Debug, PartialEq, Eq, Structural)]
pub enum WaitStep {
    /// Sleep for a number of milliseconds, then let the network stack work. The flag tells that
    /// the time asked for was out of bounds, which is to be reported.
    Sleep { ms: usize, out_of_bounds: bool },
    /// The point in time has passed: do nothing.
    Skip,
    /// End.
    Quit,
    /// Report a message that is not supported.
    Unknown,
}

/// When the network stack works next.
#[derive(Clone, Copy, Debug, PartialEq, Eq, Structural)]
pub enum PollPlan {
    /// At a point in time, for the waiting thread, as the two words of a message.
    At { lsb: usize, msb: usize },
    /// At once.
    Now,
    /// When something happens.
    Idle,
}

/// The number of an operation in a message.
pub open spec fn op_number(op: WaitOp) -> usize {
    match op {
        WaitOp::WaitMs => 0,
        WaitOp::PollAt => 1,
        WaitOp::Quit => 2,
    }
}

/// The operation with a given number, if there is one.
pub open spec fn numbered_op(n: usize) -> Option<WaitOp> {
    if n == 0 {
        Some(WaitOp::WaitMs)
    } else if n == 1 {
        Some(WaitOp::PollAt)
    } else if n == 2 {
        Some(WaitOp::Quit)
    } else {
        None
    }
}

/// The point in time in the two words of a message: the second word holds the bits from 32 on.
pub open spec fn joined(lsb: usize, msb: usize) -> u64 {
    (lsb as u64) | ((msb as u64) << 32)
}

/// What the waiting thread does about a message that comes in at `now`.
pub open spec fn wait_step_of(n: usize, lsb: usize, msb: usize, now: u64) -> WaitStep {
    match numbered_op(n) {
        Some(WaitOp::WaitMs) => WaitStep::Sleep { ms: lsb, out_of_bounds: msb != 0 },
        Some(WaitOp::PollAt) => if joined(lsb, msb) > now {
            WaitStep::Sleep { ms: (joined(lsb, msb) - now) as usize, out_of_bounds: false }
        } else {
            WaitStep::Skip
        },
        Some(WaitOp::Quit) => WaitStep::Quit,
        None => WaitStep::Unknown,
    }
}

/// The low 32 bits of a point in time.
pub open spec fn low_word(millis: i64) -> usize {
    (millis as u64 & 0xffff_ffff) as usize
}

/// The 28 bits of a point in time from bit 32 on.
pub open spec fn high_word(millis: i64) -> usize {
    ((millis as u64 >> 32) & 0xfff_ffff) as usize
}

/// When the network stack works next, if at `timestamp` it wants to work at `poll_at`.
pub open spec fn poll_plan_of(timestamp: i64, poll_at: Option<i64>) -> PollPlan {
    match poll_at {
        Some(at) => if timestamp < at {
            PollPlan::At { lsb: low_word(at), msb: high_word(at) }
        } else {
            PollPlan::Now
        },
        None => PollPlan::Idle,
    }
}

impl WaitOp {
    /// The number of the operation in a message.
    pub fn to_usize(self) -> (n: usize)
        ensures
            n == op_number(self),
    {
        match self {
            WaitOp::WaitMs => 0,
            WaitOp::PollAt => 1,
            WaitOp::Quit => 2,
        }
    }

    /// The operation with a given number, if there is one.
    pub fn from_usize(n: usize) -> (op: Option<WaitOp>)
        ensures
            op == numbered_op(n),
    {
        if n == 0 {
            Some(WaitOp::WaitMs)
        } else if n == 1 {
            Some(WaitOp::PollAt)
        } else if n == 2 {
            Some(WaitOp::Quit)
        } else {
            None
        }
    }
}

/// What the waiting thread does about a message with the operation `n` and two words, which comes
/// in at `now`.
pub fn wait_step(n: usize, lsb: usize, msb: usize, now: u64) -> (step: WaitStep)
    ensures
        step == wait_step_of(n, lsb, msb, now),
{
    match WaitOp::from_usize(n) {
        Some(WaitOp::WaitMs) => WaitStep::Sleep { ms: lsb, out_of_bounds: msb != 0 },
        Some(WaitOp::PollAt) => {
            let deadline: u64 = (lsb as u64) | ((msb as u64) << 32);
            if deadline > now {
                WaitStep::Sleep { ms: (deadline - now) as usize, out_of_bounds: false }
            } else {
                WaitStep::Skip
            }
        },
        Some(WaitOp::Quit) => WaitStep::Quit,
        None => WaitStep::Unknown,
    }
}

/// When the network stack works next, if at `timestamp` it wants to work at `poll_at`.
pub fn poll_plan(timestamp: i64, poll_at: Option<i64>) -> (plan: PollPlan)
    ensures
        plan == poll_plan_of(timestamp, poll_at),
{
    match poll_at {
        Some(at) => {
            if timestamp < at {
                PollPlan::At {
                    lsb: (at as u64 & 0xffff_ffff) as usize,
                    msb: ((at as u64 >> 32) & 0xfff_ffff) as usize,
                }
            } else {
                PollPlan::Now
            }
        },
        None => PollPlan::Idle,
    }
}

/// Every operation is read back from its number, and every other number is no operation.
pub proof fn law_op_numbers(op: WaitOp, n: usize)
    ensures
        numbered_op(op_number(op)) == Some(op),
        numbered_op(n) matches Some(o) ==> op_number(o) == n,
        numbered_op(n) is None <==> n > 2,
{
}

/// The waiting thread reads back the point in time that was sent to it. The words hold 60 bits, so
/// the point in time must not be negative nor have more.
pub proof fn law_poll_time_reads_back(at: i64)
    requires
        0 <= at < 0x1000_0000_0000_0000,
    ensures
        joined(low_word(at), high_word(at)) == at,
{
    let n: u64 = at as u64;
    assert(n & 0xffff_ffff <= 0xffff_ffff) by (bit_vector);
    assert((n >> 32) & 0xfff_ffff <= 0xfff_ffff) by (bit_vector);
    assert((n & 0xffff_ffff) | (((n >> 32) & 0xfff_ffff) << 32) == n) by (bit_vector)
        requires
            n < 0x1000_0000_0000_0000,
    ;
}

/// A message that is sent for a point in time and comes in before it puts the thread to sleep up
/// to that point in time, and one that comes in later does nothing.
pub proof fn law_wait_ends_at_poll_time(timestamp: i64, at: i64, now: u64)
    requires
        timestamp < at,
        0 <= at < 0x1000_0000_0000_0000,
        at - now <= 0xffff_ffff,
    ensures
        ({
            let plan = poll_plan_of(timestamp, Some(at));
            let step = wait_step_of(op_number(WaitOp::PollAt), plan->lsb, plan->msb, now);
            &&& now < at ==> step == (WaitStep::Sleep {
                ms: (at - now) as usize,
                out_of_bounds: false,
            }) && step->ms == at - now
            &&& now >= at ==> step == WaitStep::Skip
        }),
{
    law_poll_time_reads_back(at);
}

/// A message to wait for a time sleeps for the first word, and notes a second word that is not zero.
/// A message to end ends the thread, and one with another number than the three is not supported.
pub proof fn law_wait_messages(n: usize, lsb: usize, msb: usize, now: u64)
    ensures
        wait_step_of(0, lsb, msb, now) == (WaitStep::Sleep { ms: lsb, out_of_bounds: msb != 0 }),
        wait_step_of(2, lsb, msb, now) == WaitStep::Quit,
        n > 2 ==> wait_step_of(n, lsb, msb, now) == WaitStep::Unknown,
        op_number(WaitOp::WaitMs) == 0,
        op_number(WaitOp::PollAt) == 1,
        op_number(WaitOp::Quit) == 2,
{
}

/// A message to wait for a point in time gives its 32 low bits and then the others. It sleeps for
/// exactly the time that is left, and does nothing where none is left.
pub proof fn law_wait_for_deadline(lsb: u32, msb: u32, now: u64)
    ensures
        ({
            let deadline = lsb + 0x1_0000_0000 * msb;
            let step = wait_step_of(1, lsb as usize, msb as usize, now);
            &&& joined(lsb as usize, msb as usize) == deadline
            &&& deadline <= now ==> step == WaitStep::Skip
            &&& deadline > now ==> step is Sleep && !step->out_of_bounds
            &&& deadline > now && deadline - now <= usize::MAX ==> step->ms == deadline - now
        }),
{
    let a: u64 = lsb as u64;
    let b: u64 = msb as u64;
    assert(a | (b << 32) == a + 0x1_0000_0000 * b) by (bit_vector)
        requires
            a <= 0xffff_ffff,
            b <= 0xffff_ffff,
    ;
}

/// The network stack works at once where its time has come, waits for it where it has not, and is
/// left alone where it has none. The message holds the low 32 bits of the time and the next 28.
pub proof fn law_poll_plan(timestamp: i64, at: i64)
    ensures
        at <= timestamp ==> poll_plan_of(timestamp, Some(at)) == PollPlan::Now,
        at > timestamp ==> poll_plan_of(timestamp, Some(at)) is At,
        at > timestamp ==> {
            let plan = poll_plan_of(timestamp, Some(at));
            &&& plan->lsb == at as int % 0x1_0000_0000
            &&& plan->msb == (at as int / 0x1_0000_0000) % 0x1000_0000
        },
        poll_plan_of(timestamp, None) == PollPlan::Idle,
{
    let n: u64 = at as u64;
    assert(n & 0xffff_ffff == n % 0x1_0000_0000) by (bit_vector);
    assert((n >> 32) & 0xfff_ffff == (n / 0x1_0000_0000) % 0x1000_0000) by (bit_vector);
    assert(at < 0 ==> at as u64 == at + 0x1_0000_0000_0000_0000) by (bit_vector);
}

/// A message to wait for a point in time whose words have more than 32 bits. Bit `b` of the point in
/// time is set where bit `b` of the first word or bit `b - 32` of the second one is. The time to
/// sleep is what is left, as far as a word holds it.
pub proof fn law_wait_for_wide_words(lsb: usize, msb: usize, now: u64, b: u64)
    requires
        b < 64,
    ensures
        ({
            let deadline = joined(lsb, msb);
            let step = wait_step_of(1, lsb, msb, now);
            &&& b < 32 ==> ((deadline >> b) & 1 == 1 <==> (lsb as u64 >> b) & 1 == 1)
            &&& b >= 32 ==> ((deadline >> b) & 1 == 1 <==> (lsb as u64 >> b) & 1 == 1 || (msb as u64
                >> ((b - 32) as u64)) & 1 == 1)
            &&& deadline <= now ==> step == WaitStep::Skip
            &&& deadline > now ==> step == (WaitStep::Sleep {
                ms: step->ms,
                out_of_bounds: false,
            })
            &&& deadline > now ==> step->ms == (deadline - now) % (usize::MAX + 1)
        }),
{
    let low: u64 = lsb as u64;
    let high: u64 = msb as u64;
    let deadline: u64 = joined(lsb, msb);
    if b < 32 {
        assert(((low | (high << 32)) >> b) & 1 == (low >> b) & 1) by (bit_vector)
            requires
                b < 32,
        ;
    } else {
        let c: u64 = (b - 32) as u64;
        assert(((low | (high << 32)) >> b) & 1 == ((low >> b) & 1) | ((high >> c) & 1))
            by (bit_vector)
            requires
                32 <= b < 64,
                c == b - 32,
        ;
        assert((low >> b) & 1 <= 1 && (high >> c) & 1 <= 1) by (bit_vector);
        let x: u64 = (low >> b) & 1;
        let y: u64 = (high >> c) & 1;
        assert((x | y) == 1 <==> x == 1 || y == 1) by (bit_vector)
            requires
                x <= 1,
                y <= 1,
        ;
    }
    if deadline > now {
        let left: u64 = (deadline - now) as u64;
        assert(left as usize == if usize::BITS == 64 {
            left
        } else {
            left % 0x1_0000_0000
        }) by (bit_vector);
        if usize::BITS == 64 {
            assert(usize::MAX == 0xffff_ffff_ffff_ffff);
            assert((deadline - now) % 0x1_0000_0000_0000_0000 == left);
        } else {
            assert(usize::MAX == 0xffff_ffff);
        }
    }
}

} // verus!
