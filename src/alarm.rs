//! Reload computation for the down-counting alarm timer.
use vstd::prelude::*;

verus! {

/// Largest value the 24-bit alarm reload register can hold.
pub const MAX_RELOAD: u32 = 0xff_ffff;

/// Reload programmed for `deadline` at `now`: the ticks left, at least one
/// so that the alarm is never disabled (a deadline at or before `now` fires
/// on the next tick), and at most what the 24-bit register holds (a farther
/// deadline fires early, and the caller schedules again).
pub open spec fn reload_spec(deadline: int, now: int) -> u32 {
    if deadline <= now {
        1
    } else if deadline - now > MAX_RELOAD {
        MAX_RELOAD
    } else {
        (deadline - now) as u32
    }
}

/// Clamps the ticks left before a deadline ahead into the register's range.
fn clamp_ticks(ticks: u64) -> (r: u32)
    requires
        ticks >= 1,
    ensures
        r == (if ticks > MAX_RELOAD { MAX_RELOAD } else { ticks as u32 }),
{
    if ticks > MAX_RELOAD as u64 {
        MAX_RELOAD
    } else {
        ticks as u32
    }
}

/// Reload that makes the alarm fire `deadline - now` ticks from now, with
/// 32-bit timestamps.
pub fn reload_for_u32(deadline: u32, now: u32) -> (r: u32)
    ensures
        r == reload_spec(deadline as int, now as int),
{
    if deadline <= now {
        1
    } else {
        clamp_ticks((deadline - now) as u64)
    }
}

/// Reload that makes the alarm fire `deadline - now` ticks from now, with
/// 64-bit timestamps.
pub fn reload_for_u64(deadline: u64, now: u64) -> (r: u32)
    ensures
        r == reload_spec(deadline as int, now as int),
{
    if deadline <= now {
        1
    } else {
        clamp_ticks(deadline - now)
    }
}

/// A deadline at or before `now` programs a reload of one tick.
pub proof fn lemma_past_deadline(deadline: int, now: int)
    requires
        deadline <= now,
    ensures
        reload_spec(deadline, now) == 1,
{
}

/// A deadline farther ahead than the register holds programs the largest
/// reload, `MAX_RELOAD`.
pub proof fn lemma_far_deadline(deadline: int, now: int)
    requires
        deadline - now > MAX_RELOAD,
    ensures
        reload_spec(deadline, now) == MAX_RELOAD,
{
}

/// A deadline between one and `MAX_RELOAD` ticks ahead programs exactly the
/// number of ticks left.
pub proof fn lemma_deadline_in_range(deadline: int, now: int)
    requires
        1 <= deadline - now <= MAX_RELOAD,
    ensures
        reload_spec(deadline, now) == deadline - now,
{
}

/// No deadline ever programs a reload of zero, which would disable the
/// alarm; nor one beyond the register's range.
pub proof fn lemma_reload_never_zero(deadline: int, now: int)
    ensures
        1 <= reload_spec(deadline, now) <= MAX_RELOAD,
{
}

/// For a fixed deadline, the reload never grows as time passes.
pub proof fn lemma_reload_shrinks_over_time(deadline: int, earlier: int, later: int)
    requires
        earlier <= later,
    ensures
        reload_spec(deadline, later) <= reload_spec(deadline, earlier),
{
}

} // verus!
