use vstd::arithmetic::div_mod::lemma_div_is_ordered;
use vstd::arithmetic::div_mod::lemma_div_multiples_vanish;
use vstd::prelude::*;

use crate::color::AggregatedColor;
use crate::color::SmoothedColor;

verus! {

/// Denominator of the fixed-point smoothing factor: a factor of
/// `FACTOR_SCALE` stands for total damping (1.0), a factor of 0 for none
/// (0.0). A factor between the two blends the previous smoothed value with
/// the new aggregate.
pub const FACTOR_SCALE: u64 = 1000;

/// One channel of the exponential moving average, with truncating division:
/// `(factor * prev + (FACTOR_SCALE - factor) * agg) / FACTOR_SCALE`.
pub open spec fn spec_smooth_channel(prev: int, agg: int, factor: int) -> int
    recommends
        0 <= factor <= FACTOR_SCALE,
{
    (factor * prev + (FACTOR_SCALE - factor) * agg) / (FACTOR_SCALE as int)
}

/// The blended channel never leaves the interval spanned by its two inputs.
proof fn lemma_smooth_channel_between(prev: int, agg: int, factor: int)
    requires
        0 <= factor <= FACTOR_SCALE,
    ensures
        prev <= agg ==> prev <= spec_smooth_channel(prev, agg, factor) <= agg,
        agg <= prev ==> agg <= spec_smooth_channel(prev, agg, factor) <= prev,
{
    let s = FACTOR_SCALE as int;
    let f = factor;
    let p = prev;
    let a = agg;
    let w = f * p + (s - f) * a;
    let lo: int = if p <= a {
        p
    } else {
        a
    };
    let hi: int = if p <= a {
        a
    } else {
        p
    };
    assert(s * lo <= w <= s * hi) by (nonlinear_arith)
        requires
            0 <= f <= s,
            lo <= p <= hi,
            lo <= a <= hi,
            w == f * p + (s - f) * a,
    ;
    lemma_div_is_ordered(s * lo, w, s);
    lemma_div_is_ordered(w, s * hi, s);
    lemma_div_multiples_vanish(lo, s);
    lemma_div_multiples_vanish(hi, s);
}

/// Blend one channel of the new aggregate into the carried smoothed value.
/// A factor of 0 tracks the aggregate exactly; a factor of `FACTOR_SCALE`
/// keeps the previous value unchanged.
pub fn smooth_channel(prev: u64, agg: u64, factor: u64) -> (r: u64)
    requires
        factor <= FACTOR_SCALE,
    ensures
        r as int == spec_smooth_channel(prev as int, agg as int, factor as int),
        factor == 0 ==> r == agg,
        factor == FACTOR_SCALE ==> r == prev,
{
    proof {
        let s = FACTOR_SCALE as int;
        let f = factor as int;
        let p = prev as int;
        let a = agg as int;
        assert(0 <= f * p <= s * u64::MAX && 0 <= (s - f) * a <= s * u64::MAX && 0 <= f * p + (s
            - f) * a <= s * u64::MAX) by (nonlinear_arith)
            requires
                0 <= f <= s,
                0 <= p <= u64::MAX,
                0 <= a <= u64::MAX,
        ;
        lemma_smooth_channel_between(p, a, f);
        if factor == 0 {
            lemma_div_multiples_vanish(a, s);
        }
        if factor == FACTOR_SCALE {
            assert((s - f) * a == 0) by (nonlinear_arith)
                requires
                    s == f,
            ;
            lemma_div_multiples_vanish(p, s);
            assert(f * p + (s - f) * a == s * p);
        }
    }
    let wide: u128 = (factor as u128) * (prev as u128) + ((FACTOR_SCALE - factor) as u128) * (
    agg as u128);
    let q: u128 = wide / (FACTOR_SCALE as u128);
    q as u64
}

/// Apply the exponential moving average to all three channels, yielding the
/// smoothed color carried into the next cycle.
pub fn smooth_color(prev: &SmoothedColor, agg: &AggregatedColor, factor: u64) -> (c: SmoothedColor)
    requires
        factor <= FACTOR_SCALE,
    ensures
        c.r as int == spec_smooth_channel(prev.r as int, agg.r as int, factor as int),
        c.g as int == spec_smooth_channel(prev.g as int, agg.g as int, factor as int),
        c.b as int == spec_smooth_channel(prev.b as int, agg.b as int, factor as int),
        factor == 0 ==> c == (SmoothedColor { r: agg.r, g: agg.g, b: agg.b }),
        factor == FACTOR_SCALE ==> c == *prev,
{
    SmoothedColor {
        r: smooth_channel(prev.r, agg.r, factor),
        g: smooth_channel(prev.g, agg.g, factor),
        b: smooth_channel(prev.b, agg.b, factor),
    }
}

/// Law: under a constant aggregate, each smoothing step moves the carried
/// channel toward that aggregate without ever overshooting it. A channel
/// starting at or below the aggregate (as from the initial black state)
/// therefore climbs monotonically toward it, and one starting above sinks
/// monotonically toward it, for every factor in range. The step is strict
/// while the remaining gap outweighs the damping, so the channel converges
/// into the band where truncation absorbs the whole step.
pub proof fn lemma_smoother_moves_toward(prev: u64, agg: u64, factor: u64)
    requires
        factor <= FACTOR_SCALE,
    ensures
        prev <= agg ==> prev <= spec_smooth_channel(prev as int, agg as int, factor as int)
            <= agg,
        agg <= prev ==> agg <= spec_smooth_channel(prev as int, agg as int, factor as int)
            <= prev,
        (FACTOR_SCALE - factor) * (agg - prev) >= FACTOR_SCALE ==> spec_smooth_channel(
            prev as int,
            agg as int,
            factor as int,
        ) > prev,
{
    let s = FACTOR_SCALE as int;
    let f = factor as int;
    let p = prev as int;
    let a = agg as int;
    lemma_smooth_channel_between(p, a, f);
    if (s - f) * (a - p) >= s {
        let w = f * p + (s - f) * a;
        assert(w >= s * (p + 1)) by (nonlinear_arith)
            requires
                w == f * p + (s - f) * a,
                (s - f) * (a - p) >= s,
        ;
        lemma_div_is_ordered(s * (p + 1), w, s);
        lemma_div_multiples_vanish(p + 1, s);
    }
}

/// The carried channel after `n` cycles of smoothing against a constant
/// aggregate.
pub open spec fn spec_smooth_iter(prev: int, agg: int, factor: int, n: nat) -> int
    decreases n,
{
    if n == 0 {
        prev
    } else {
        spec_smooth_channel(spec_smooth_iter(prev, agg, factor, (n - 1) as nat), agg, factor)
    }
}

/// Law: against a constant aggregate at or above the carried channel (as
/// when starting from the initial black state), the sequence of smoothed
/// values over successive cycles is monotonically nondecreasing and never
/// exceeds the aggregate — it converges upward toward the aggregate,
/// whatever the factor.
pub proof fn lemma_smoother_monotone_cycles(prev: u64, agg: u64, factor: u64, n: nat)
    requires
        factor <= FACTOR_SCALE,
        prev <= agg,
    ensures
        prev <= spec_smooth_iter(prev as int, agg as int, factor as int, n),
        spec_smooth_iter(prev as int, agg as int, factor as int, n) <= spec_smooth_iter(
            prev as int,
            agg as int,
            factor as int,
            n + 1,
        ),
        spec_smooth_iter(prev as int, agg as int, factor as int, n) <= agg,
    decreases n,
{
    let p = prev as int;
    let a = agg as int;
    let f = factor as int;
    assert(spec_smooth_iter(p, a, f, n + 1) == spec_smooth_channel(
        spec_smooth_iter(p, a, f, n),
        a,
        f,
    ));
    if n == 0 {
        lemma_smooth_channel_between(p, a, f);
    } else {
        lemma_smoother_monotone_cycles(prev, agg, factor, (n - 1) as nat);
        assert(spec_smooth_iter(p, a, f, n) == spec_smooth_channel(
            spec_smooth_iter(p, a, f, (n - 1) as nat),
            a,
            f,
        ));
        lemma_smooth_channel_between(spec_smooth_iter(p, a, f, (n - 1) as nat), a, f);
        lemma_smooth_channel_between(spec_smooth_iter(p, a, f, n), a, f);
    }
}

} // verus!
