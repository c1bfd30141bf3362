//! Decision logic of the change-notified wait primitive.
//!
//! The primitive blocks a caller until a condition holds or a total timeout
//! expires, waking on kernel change-notification events. The blocking call
//! and the monotonic clock live with the host, which drives a loop:
//!
//! 1. evaluate the condition once and call [`wait_start`]; on
//!    [`WaitStep::Poll`], block on the notification facility for
//!    [`poll_timeout_ms`] milliseconds;
//! 2. on each wakeup (event, timeout or spurious), measure the elapsed time,
//!    re-evaluate the condition and call [`wait_step`]; on
//!    [`WaitStep::Poll`] block again with the returned remaining budget.
//!
//! [`WaitStep::Ready`] means "return `true`", [`WaitStep::TimedOut`] means
//! "return `false`". Durations are carried as nanoseconds.

use vstd::prelude::*;

verus! {

/// What the wait loop should do next.
#[derive(Clone, Copy, Debug, PartialEq, Eq)]
pub enum WaitStep {
    /// The condition holds: return `true`.
    Ready,
    /// The total timeout has expired: return `false`.
    TimedOut,
    /// Block on the change-notification facility, then step again.
    /// `remaining_ns` is the budget left, or `None` for "indefinite".
    Poll { remaining_ns: Option<u128> },
}

/// The decision on entry: an initially true condition wins immediately,
/// before the notification facility or the clock is ever consulted.
pub open spec fn wait_start_spec(cond_now: bool, timeout_ns: Option<u128>) -> WaitStep {
    if cond_now {
        WaitStep::Ready
    } else {
        WaitStep::Poll { remaining_ns: timeout_ns }
    }
}

/// The decision after a wakeup. The timeout is authoritative: once the
/// elapsed time has reached the budget, the wait reports failure even if the
/// condition has just become true.
pub open spec fn wait_step_spec(
    timeout_ns: Option<u128>,
    elapsed_ns: u128,
    cond_now: bool,
) -> WaitStep {
    if timeout_ns matches Some(d) && elapsed_ns >= d {
        WaitStep::TimedOut
    } else if cond_now {
        WaitStep::Ready
    } else {
        match timeout_ns {
            Some(d) => WaitStep::Poll { remaining_ns: Some((d - elapsed_ns) as u128) },
            None => WaitStep::Poll { remaining_ns: None },
        }
    }
}

/// Decides what to do on entry, given one up-front evaluation of the
/// condition: succeed at once, or start polling with the whole budget.
pub fn wait_start(cond_now: bool, timeout_ns: Option<u128>) -> (s: WaitStep)
    ensures
        s == wait_start_spec(cond_now, timeout_ns),
{
    if cond_now {
        WaitStep::Ready
    } else {
        WaitStep::Poll { remaining_ns: timeout_ns }
    }
}

/// Decides what to do after a wakeup, given the total budget, the time
/// elapsed since entry, and a fresh evaluation of the condition.
pub fn wait_step(timeout_ns: Option<u128>, elapsed_ns: u128, cond_now: bool) -> (s: WaitStep)
    ensures
        s == wait_step_spec(timeout_ns, elapsed_ns, cond_now),
{
    match timeout_ns {
        Some(d) => {
            if elapsed_ns >= d {
                WaitStep::TimedOut
            } else if cond_now {
                WaitStep::Ready
            } else {
                WaitStep::Poll { remaining_ns: Some(d - elapsed_ns) }
            }
        },
        None => {
            if cond_now {
                WaitStep::Ready
            } else {
                WaitStep::Poll { remaining_ns: None }
            }
        },
    }
}

/// The per-iteration timeout handed to the change-notification call, in
/// whole milliseconds: `-1` (indefinite) when no budget was given, otherwise
/// the remaining budget rounded down, saturated at `i32::MAX`.
pub fn poll_timeout_ms(remaining_ns: Option<u128>) -> (t: i32)
    ensures
        remaining_ns is None ==> t == -1,
        remaining_ns matches Some(r) ==> t == if r / 1_000_000 > i32::MAX as u128 {
            i32::MAX as int
        } else {
            (r / 1_000_000) as int
        },
{
    match remaining_ns {
        Some(r) => {
            let ms: u128 = r / 1_000_000;
            if ms > 0x7fff_ffff {
                0x7fff_ffff
            } else {
                ms as i32
            }
        },
        None => -1,
    }
}

/// Wait eagerness: when the condition already holds on entry, the very
/// first decision is `Ready` — no polling action is ever emitted, whatever
/// the timeout, so the host never touches the descriptor or the clock.
pub proof fn lemma_wait_eagerness(timeout_ns: Option<u128>)
    ensures
        wait_start_spec(true, timeout_ns) == WaitStep::Ready,
{
}

/// The timeout is authoritative: once the elapsed time reaches the budget,
/// the decision is `TimedOut` whatever the condition evaluated to — a
/// last-moment condition flip cannot rescue an expired wait.
pub proof fn lemma_wait_deadline_authoritative(d: u128, elapsed_ns: u128, cond_now: bool)
    requires
        elapsed_ns >= d,
    ensures
        wait_step_spec(Some(d), elapsed_ns, cond_now) == WaitStep::TimedOut,
{
}

/// The budget never grows: a finite budget either expires or shrinks by
/// exactly the elapsed time, so successive poll iterations carry smaller
/// and smaller budgets.
pub proof fn lemma_wait_budget_shrinks(d: u128, elapsed_ns: u128, cond_now: bool)
    ensures
        wait_step_spec(Some(d), elapsed_ns, cond_now) matches WaitStep::Poll { remaining_ns }
            ==> remaining_ns == Some((d - elapsed_ns) as u128) && d - elapsed_ns <= d,
{
}

} // verus!
