use vstd::prelude::*;
use vstd::arithmetic::div_mod::{lemma_div_is_ordered, lemma_fundamental_div_mod, lemma_mod_bound};

verus! {

/// Nanoseconds in one second: the pipeline's time unit.
pub const SECOND: u64 = 1_000_000_000;

/// Nanoseconds in one vendor tick (vendor timestamps count 100 ns ticks).
pub const TICK_NS: u64 = 100;

/// `floor(a * b / c)`.
pub open spec fn mul_div_spec(a: int, b: int, c: int) -> int {
    (a * b) / c
}

/// Presentation time of the sample at `offset` for `rate` samples per second.
pub open spec fn audio_pts_spec(offset: int, rate: int) -> int {
    mul_div_spec(offset, SECOND as int, rate)
}

/// `floor(a * b / c)`, or `None` when `c` is zero or the result does not fit.
pub fn mul_div_floor(a: u64, b: u64, c: u64) -> (r: Option<u64>)
    ensures
        r.is_some() <==> (c != 0 && mul_div_spec(a as int, b as int, c as int) <= u64::MAX),
        r.is_some() ==> r.unwrap() == mul_div_spec(a as int, b as int, c as int),
{
    if c == 0 {
        return None;
    }
    let aw: u128 = a as u128;
    let bw: u128 = b as u128;
    proof {
        assert(aw * bw <= u64::MAX as int * u64::MAX as int) by (nonlinear_arith)
            requires aw <= u64::MAX, bw <= u64::MAX;
        assert(u64::MAX as int * u64::MAX as int <= u128::MAX) by (nonlinear_arith);
    }
    let p: u128 = aw * bw;
    let q: u128 = p / (c as u128);
    if q > u64::MAX as u128 {
        None
    } else {
        Some(q as u64)
    }
}

/// Timing of one audio buffer, in nanoseconds.
#[derive(Clone, Copy, Debug, PartialEq, Eq, Structural)]
pub struct AudioTiming {
    pub pts: u64,
    pub duration: u64,
}

/// Why a timestamp could not be computed.
#[derive(Clone, Copy, Debug, PartialEq, Eq, Structural)]
pub enum TimestampError {
    /// The sample rate is zero.
    ZeroRate,
    /// The video baseline has not been recorded yet.
    BaselineUnset,
    /// The value does not fit in 64 bits.
    Overflow,
}

/// Counter of the audio samples produced so far by one element.
#[derive(Clone, Copy, Debug, PartialEq, Eq, Structural)]
pub struct TimestampData {
    pub sample_offset: u64,
}

/// Whether a buffer of `n` samples can be timed after `offset` at `rate`.
pub open spec fn audio_step_ok(offset: int, n: int, rate: int) -> bool {
    rate != 0 && offset + n <= u64::MAX && audio_pts_spec(offset + n, rate) <= u64::MAX
}

impl TimestampData {
    /// A counter at zero.
    pub fn new() -> (r: TimestampData)
        ensures
            r.sample_offset == 0,
    {
        TimestampData { sample_offset: 0 }
    }

    /// Times a buffer of `n_samples` samples and advances the counter past it.
    /// The buffer starts at `offset * SECOND / rate` and lasts until the start
    /// of the next one.
    pub fn advance(&mut self, n_samples: u64, rate: u64) -> (r: Result<AudioTiming, TimestampError>)
        ensures
            r.is_ok() <==> audio_step_ok(old(self).sample_offset as int, n_samples as int, rate as int),
            r matches Ok(t) ==> {
                &&& t.pts == audio_pts_spec(old(self).sample_offset as int, rate as int)
                &&& t.pts + t.duration == audio_pts_spec(final(self).sample_offset as int, rate as int)
                &&& final(self).sample_offset == old(self).sample_offset + n_samples
            },
            r == Err::<AudioTiming, TimestampError>(TimestampError::ZeroRate) <==> rate == 0,
            r.is_err() ==> *final(self) == *old(self),
    {
        if rate == 0 {
            return Err(TimestampError::ZeroRate);
        }
        let o = self.sample_offset;
        if n_samples > u64::MAX - o {
            return Err(TimestampError::Overflow);
        }
        let end_offset: u64 = o + n_samples;
        let end = match mul_div_floor(end_offset, SECOND, rate) {
            Some(v) => v,
            None => return Err(TimestampError::Overflow),
        };
        proof {
            lemma_mul_ordered(o as int, end_offset as int, SECOND as int);
            lemma_div_is_ordered(o as int * SECOND as int, end_offset as int * SECOND as int, rate as int);
        }
        let start = match mul_div_floor(o, SECOND, rate) {
            Some(v) => v,
            None => return Err(TimestampError::Overflow),
        };
        self.sample_offset = end_offset;
        Ok(AudioTiming { pts: start, duration: end - start })
    }
}

proof fn lemma_mul_ordered(x: int, y: int, k: int)
    requires
        0 <= x <= y,
        0 <= k,
    ensures
        x * k <= y * k,
{
    assert(x * k <= y * k) by (nonlinear_arith)
        requires 0 <= x <= y, 0 <= k;
}

/// Consecutive audio buffers are contiguous: the second starts where the
/// first ends, and it starts strictly later when the first holds samples and
/// the rate is at most one sample per nanosecond.
pub proof fn lemma_audio_contiguous(o1: int, n: int, rate: int)
    requires
        0 <= o1,
        0 <= n,
        0 < rate,
    ensures
        audio_pts_spec(o1, rate) <= audio_pts_spec(o1 + n, rate),
        (n > 0 && rate <= SECOND) ==> audio_pts_spec(o1, rate) < audio_pts_spec(o1 + n, rate),
{
    lemma_mul_ordered(o1, o1 + n, SECOND as int);
    lemma_div_is_ordered(o1 * SECOND, (o1 + n) * SECOND, rate);
    if n > 0 && rate <= SECOND {
        assert((o1 + n) * SECOND >= o1 * SECOND + rate) by (nonlinear_arith)
            requires n >= 1, rate <= SECOND;
        lemma_mul_ordered(0, o1, SECOND as int);
        lemma_div_is_ordered(o1 * SECOND + rate, (o1 + n) * SECOND, rate);
        lemma_div_plus_divisor(o1 * SECOND, rate);
    }
}

proof fn lemma_div_plus_divisor(x: int, d: int)
    requires
        0 < d,
        0 <= x,
    ensures
        (x + d) / d == x / d + 1,
{
    lemma_fundamental_div_mod(x, d);
    lemma_mod_bound(x, d);
    assert(x + d == (x / d + 1) * d + x % d) by (nonlinear_arith)
        requires x == d * (x / d) + x % d;
    vstd::arithmetic::div_mod::lemma_fundamental_div_mod_converse(x + d, d, x / d + 1, x % d);
}

/// The offset difference between two buffers maps exactly onto their pts
/// difference whenever the two floor divisions lose less than one unit
/// together: `pts(o2) == pts(o1) + (o2 - o1) * SECOND / rate`.
pub proof fn lemma_audio_pts_additive(o1: int, o2: int, rate: int)
    requires
        0 < rate,
        0 <= o1 <= o2,
        (o1 * SECOND) % rate + ((o2 - o1) * SECOND) % rate < rate,
    ensures
        audio_pts_spec(o2, rate) == audio_pts_spec(o1, rate) + mul_div_spec(o2 - o1, SECOND as int, rate),
{
    let r = rate;
    let a = o1 * SECOND;
    let b = (o2 - o1) * SECOND;
    assert(o2 * SECOND == a + b) by (nonlinear_arith)
        requires a == o1 * SECOND, b == (o2 - o1) * SECOND;
    lemma_fundamental_div_mod(a, r);
    lemma_fundamental_div_mod(b, r);
    lemma_mod_bound(a, r);
    lemma_mod_bound(b, r);
    assert(a + b == (a / r + b / r) * r + (a % r + b % r)) by (nonlinear_arith)
        requires a == r * (a / r) + a % r, b == r * (b / r) + b % r;
    vstd::arithmetic::div_mod::lemma_fundamental_div_mod_converse(a + b, r, a / r + b / r, a % r + b % r);
}

/// Vendor-tick difference `ts - initial`, clamped at zero.
pub open spec fn clamped_ticks(ts: int, initial: int) -> int {
    if ts <= initial { 0 } else { ts - initial }
}

/// Video pts of a frame stamped `ts` against the baseline `initial`, in ns.
pub open spec fn video_pts_spec(ts: int, initial: int) -> int {
    clamped_ticks(ts, initial) * TICK_NS
}

/// The baseline kept after a frame stamped `ts` arrives while `stored` is kept
/// (zero means unset): the new stamp replaces an unset or later baseline.
pub open spec fn baseline_spec(stored: int, ts: int) -> int {
    if stored == 0 || ts <= stored { ts } else { stored }
}

/// Records `ts` as the baseline when none is set or when it is not later than
/// the stored one (the vendor clock restarts on reconnection).
pub fn update_baseline(stored: u64, ts: u64) -> (r: u64)
    ensures
        r == baseline_spec(stored as int, ts as int),
{
    if stored == 0 || ts <= stored {
        ts
    } else {
        stored
    }
}

/// Video pts in nanoseconds of a frame stamped `ts` (100 ns ticks) against the
/// baseline `initial`. A stamp earlier than the baseline gives zero.
pub fn video_pts(ts: u64, initial: u64) -> (r: Result<u64, TimestampError>)
    ensures
        r == Err::<u64, TimestampError>(TimestampError::BaselineUnset) <==> initial == 0,
        r matches Ok(p) ==> p == video_pts_spec(ts as int, initial as int),
        r.is_ok() <==> (initial != 0 && video_pts_spec(ts as int, initial as int) <= u64::MAX),
{
    if initial == 0 {
        return Err(TimestampError::BaselineUnset);
    }
    let ticks: u64 = if ts <= initial { 0 } else { ts - initial };
    if ticks > u64::MAX / TICK_NS {
        proof {
            assert(ticks * TICK_NS > u64::MAX) by (nonlinear_arith)
                requires ticks > u64::MAX / 100, TICK_NS == 100;
        }
        return Err(TimestampError::Overflow);
    }
    proof {
        assert(ticks * TICK_NS <= u64::MAX) by (nonlinear_arith)
            requires ticks <= u64::MAX / 100, TICK_NS == 100;
    }
    Ok(ticks * TICK_NS)
}

/// A video pts is never below zero, and a stamp not later than the baseline
/// gives exactly zero rather than a wrapped value.
pub proof fn lemma_video_pts_clamped(ts: int, initial: int)
    ensures
        video_pts_spec(ts, initial) >= 0,
        ts <= initial ==> video_pts_spec(ts, initial) == 0,
{
}

} // verus!
