//! Widening of the 32-bit cycle counter to 64-bit timestamps.
use vstd::prelude::*;

verus! {

/// Number of ticks in one period of the native 32-bit cycle counter.
pub const COUNTER_PERIOD: u64 = 0x1_0000_0000;

/// High half of a 64-bit timestamp: the number of counter wraparounds seen.
pub open spec fn high_half(t: u64) -> nat {
    t as nat / COUNTER_PERIOD as nat
}

/// Low half of a 64-bit timestamp: the counter reading it was made from.
pub open spec fn low_half(t: u64) -> nat {
    t as nat % COUNTER_PERIOD as nat
}

/// Timestamp made from the previous one, `last`, and a fresh counter
/// reading `raw`: a reading below the previous low half means that the
/// counter wrapped, and the wraparound count goes up by one (modulo 2^32).
pub open spec fn extend(last: u64, raw: u32) -> u64 {
    let high = if (raw as nat) < low_half(last) {
        (high_half(last) + 1) % COUNTER_PERIOD as nat
    } else {
        high_half(last)
    };
    (high * COUNTER_PERIOD + raw) as u64
}

/// Overflow-tracking state of the extended time base: the last timestamp
/// handed out, whose low half is the last counter reading seen.
pub struct ExtendedCounter {
    last: u64,
}

proof fn lemma_split(t: u64)
    ensures
        (t >> 32u64) as u32 == high_half(t),
        t as u32 == low_half(t),
{
    assert((t >> 32u64) as u32 == t / 0x1_0000_0000u64) by (bit_vector);
    assert(t as u32 == t % 0x1_0000_0000u64) by (bit_vector);
}

proof fn lemma_join(high: u32, low: u32)
    ensures
        ((high as u64) << 32u64) | (low as u64) == high * COUNTER_PERIOD + low,
{
    assert(((high as u64) << 32u64) | (low as u64) == (high as u64) * 0x1_0000_0000u64 + (
    low as u64)) by (bit_vector);
}

impl ExtendedCounter {
    pub closed spec fn view(&self) -> u64 {
        self.last
    }

    /// State before any reading: the epoch, timestamp zero.
    pub fn new() -> (r: Self)
        ensures
            r@ == 0,
    {
        ExtendedCounter { last: 0 }
    }

    /// State whose last timestamp handed out is `last`.
    pub fn starting_at(last: u64) -> (r: Self)
        ensures
            r@ == last,
    {
        ExtendedCounter { last }
    }

    /// The last timestamp handed out.
    pub fn last(&self) -> (r: u64)
        ensures
            r == self@,
    {
        self.last
    }

    /// Takes a fresh reading of the cycle counter and returns the widened
    /// timestamp, which also becomes the new last timestamp.
    pub fn update(&mut self, raw: u32) -> (r: u64)
        ensures
            r == extend(old(self)@, raw),
            final(self)@ == r,
    {
        let mut high: u32 = (self.last >> 32) as u32;
        let low: u32 = self.last as u32;
        proof {
            lemma_split(self.last);
        }
        if raw < low {
            high = high.wrapping_add(1);
        }
        proof {
            lemma_join(high, raw);
        }
        self.last = ((high as u64) << 32) | (raw as u64);
        self.last
    }
}

proof fn lemma_halves(t: u64)
    ensures
        t == high_half(t) * COUNTER_PERIOD + low_half(t),
        low_half(t) < COUNTER_PERIOD,
        high_half(t) < COUNTER_PERIOD,
{
    let p = COUNTER_PERIOD as nat;
    let tn = t as nat;
    assert(tn == (tn / p) * p + tn % p) by (nonlinear_arith)
        requires
            p > 0,
    ;
    assert(tn / p < p) by (nonlinear_arith)
        requires
            p == 0x1_0000_0000nat,
            tn < p * p,
    ;
}

/// Timestamps never go backwards: each one is at least the one before it,
/// also across a wraparound of the counter, until the 64-bit timestamp
/// itself is about to wrap (its high half at its largest value).
pub proof fn lemma_now_nondecreasing(last: u64, raw: u32)
    requires
        high_half(last) + 1 < COUNTER_PERIOD,
    ensures
        last <= extend(last, raw),
{
    lemma_halves(last);
}

/// While fewer than 2^32 ticks pass between two observations, the new
/// timestamp is the previous one plus exactly the ticks that passed, the
/// counter reading being the previous low half plus those ticks, modulo 2^32.
pub proof fn lemma_elapsed_tracked(last: u64, raw: u32, elapsed: nat)
    requires
        elapsed < COUNTER_PERIOD,
        raw == (low_half(last) + elapsed) % COUNTER_PERIOD as nat,
        last + elapsed <= u64::MAX,
    ensures
        extend(last, raw) == last + elapsed,
{
    lemma_halves(last);
}

/// A counter that wrapped exactly once since the last observation (its
/// reading is below the previous low half) makes the timestamp advance by
/// `(2^32 - previous low half) + reading`, never by less.
pub proof fn lemma_single_wrap(last: u64, raw: u32)
    requires
        (raw as nat) < low_half(last),
        high_half(last) + 1 < COUNTER_PERIOD,
    ensures
        extend(last, raw) == last + (COUNTER_PERIOD - low_half(last)) + raw,
{
    lemma_halves(last);
}

/// Timestamps handed out for the successive counter readings `raws`,
/// starting from the state whose last timestamp is `last`.
pub open spec fn timeline(last: u64, raws: Seq<u32>) -> Seq<u64>
    decreases raws.len(),
{
    if raws.len() == 0 {
        seq![]
    } else {
        let t = extend(last, raws[0]);
        seq![t] + timeline(t, raws.drop_first())
    }
}

proof fn lemma_extend_high_half(last: u64, raw: u32)
    requires
        high_half(last) + 1 < COUNTER_PERIOD,
    ensures
        high_half(extend(last, raw)) <= high_half(last) + 1,
{
    lemma_halves(last);
    let p = COUNTER_PERIOD as nat;
    let h: nat = if (raw as nat) < low_half(last) {
        high_half(last) + 1
    } else {
        high_half(last)
    };
    assert((h * p + raw as nat) / p == h) by (nonlinear_arith)
        requires
            p > 0,
            (raw as nat) < p,
    ;
}

/// Over any run of observations, timestamps never go backwards: each is
/// at least the state's last timestamp and at least every one before it,
/// as long as the 64-bit timestamp cannot wrap within the run (its high
/// half, which each observation raises by at most one, stays below its
/// largest value).
pub proof fn lemma_timeline_nondecreasing(last: u64, raws: Seq<u32>)
    requires
        high_half(last) + raws.len() < COUNTER_PERIOD,
    ensures
        timeline(last, raws).len() == raws.len(),
        forall|i: int| 0 <= i < raws.len() ==> last <= #[trigger] timeline(last, raws)[i],
        forall|i: int, j: int|
            0 <= i <= j < raws.len() ==> timeline(last, raws)[i] <= timeline(last, raws)[j],
    decreases raws.len(),
{
    if raws.len() > 0 {
        let t = extend(last, raws[0]);
        let rest = raws.drop_first();
        lemma_now_nondecreasing(last, raws[0]);
        lemma_extend_high_half(last, raws[0]);
        lemma_timeline_nondecreasing(t, rest);
        let tl = timeline(last, raws);
        assert(tl == seq![t] + timeline(t, rest));
        assert forall|i: int, j: int| 0 <= i <= j < raws.len() implies tl[i] <= tl[j] by {
            if j > 0 {
                assert(tl[j] == timeline(t, rest)[j - 1]);
            }
            if i > 0 {
                assert(tl[i] == timeline(t, rest)[i - 1]);
            }
        }
    }
}

/// If 2^32 ticks or more pass between two observations, a whole wraparound
/// goes unseen: the new timestamp is always short of the true time,
/// and detectably so, as it never advances by a full counter period.
pub proof fn lemma_missed_overflow(last: u64, raw: u32, elapsed: nat)
    requires
        elapsed >= COUNTER_PERIOD,
        raw == (low_half(last) + elapsed) % COUNTER_PERIOD as nat,
    ensures
        extend(last, raw) < last + COUNTER_PERIOD,
        extend(last, raw) != last + elapsed,
{
    lemma_halves(last);
}

} // verus!
