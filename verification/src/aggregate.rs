use vstd::arithmetic::div_mod::lemma_div_multiples_vanish;
use vstd::arithmetic::div_mod::lemma_fundamental_div_mod;
use vstd::arithmetic::div_mod::lemma_mod_multiples_vanish;
use vstd::arithmetic::div_mod::lemma_small_mod;
use vstd::prelude::*;

use crate::color::AggregatedColor;
use crate::color::Frame;
use crate::color::Pixel;

verus! {

/// Sum of the channel values at sampled positions, scanning positions
/// `i, i+1, ...` to the end: a position contributes exactly when it is a
/// multiple of the stride.
pub open spec fn sampled_sum(vals: Seq<u8>, stride: int, i: int) -> int
    recommends
        1 <= stride,
    decreases vals.len() - i,
{
    if i < 0 || i >= vals.len() {
        0
    } else {
        (if i % stride == 0 {
            vals[i] as int
        } else {
            0
        }) + sampled_sum(vals, stride, i + 1)
    }
}

/// How many of the positions `i, i+1, ...` up to (excluding) `len` are
/// multiples of the stride.
pub open spec fn sampled_count(len: int, stride: int, i: int) -> int
    recommends
        1 <= stride,
    decreases len - i,
{
    if i < 0 || i >= len {
        0
    } else {
        (if i % stride == 0 {
            1int
        } else {
            0int
        }) + sampled_count(len, stride, i + 1)
    }
}

/// The averaging scheme for one channel: the sampled sum over the whole
/// sequence, divided (truncating) by the externally fixed sample size.
pub open spec fn spec_avg_channel(vals: Seq<u8>, stride: int, size: int) -> int
    recommends
        1 <= stride,
        1 <= size,
{
    sampled_sum(vals, stride, 0) / size
}

/// Downsample and average a frame: walk the pixels in capture order,
/// accumulate the channels of every stride-th pixel, and divide each channel
/// sum by the configured sample size. The result is unclamped, exactly as
/// the truncating integer scheme produces it.
pub fn aggregate(frame: &Frame, stride: u64, size: u64) -> (c: AggregatedColor)
    requires
        frame.wf(),
        1 <= stride,
        1 <= size,
        255 * frame.pixels@.len() <= u64::MAX,
    ensures
        c.r as int == spec_avg_channel(frame.reds(), stride as int, size as int),
        c.g as int == spec_avg_channel(frame.greens(), stride as int, size as int),
        c.b as int == spec_avg_channel(frame.blues(), stride as int, size as int),
{
    let ghost reds = frame.reds();
    let ghost greens = frame.greens();
    let ghost blues = frame.blues();
    let mut total_r: u64 = 0;
    let mut total_g: u64 = 0;
    let mut total_b: u64 = 0;
    let n: usize = frame.pixels.len();
    let mut idx: usize = 0;
    while idx < n
        invariant
            0 <= idx <= n,
            n == frame.pixels@.len(),
            reds == frame.reds(),
            greens == frame.greens(),
            blues == frame.blues(),
            1 <= stride,
            255 * n <= u64::MAX,
            total_r <= 255 * idx,
            total_g <= 255 * idx,
            total_b <= 255 * idx,
            total_r + sampled_sum(reds, stride as int, idx as int) == sampled_sum(
                reds,
                stride as int,
                0,
            ),
            total_g + sampled_sum(greens, stride as int, idx as int) == sampled_sum(
                greens,
                stride as int,
                0,
            ),
            total_b + sampled_sum(blues, stride as int, idx as int) == sampled_sum(
                blues,
                stride as int,
                0,
            ),
        decreases n - idx,
    {
        let p: Pixel = frame.pixels[idx];
        proof {
            assert(reds[idx as int] == p.r);
            assert(greens[idx as int] == p.g);
            assert(blues[idx as int] == p.b);
        }
        if (idx as u64) % stride == 0 {
            total_r = total_r + p.r as u64;
            total_g = total_g + p.g as u64;
            total_b = total_b + p.b as u64;
        }
        idx = idx + 1;
    }
    AggregatedColor { r: total_r / size, g: total_g / size, b: total_b / size }
}

/// If every sampled position of `vals` carries the value `c`, the sampled
/// sum is `c` times the number of sampled positions.
proof fn lemma_sampled_sum_const(vals: Seq<u8>, stride: int, i: int, c: u8)
    requires
        1 <= stride,
        forall|j: int| 0 <= j < vals.len() && j % stride == 0 ==> vals[j] == c,
    ensures
        sampled_sum(vals, stride, i) == c * sampled_count(vals.len() as int, stride, i),
    decreases vals.len() - i,
{
    if i < 0 || i >= vals.len() {
        assert(c * 0 == 0) by (nonlinear_arith);
    } else {
        lemma_sampled_sum_const(vals, stride, i + 1, c);
        let k = sampled_count(vals.len() as int, stride, i + 1);
        assert(c * (1 + k) == c + c * k) by (nonlinear_arith);
    }
}

/// Positions that are no multiples of the stride contribute nothing to the
/// sample count.
proof fn lemma_count_skips(len: int, stride: int, i: int, j: int)
    requires
        1 <= stride,
        0 <= i <= j,
        forall|k: int| i <= k < j ==> #[trigger] (k % stride) != 0,
    ensures
        sampled_count(len, stride, i) == sampled_count(len, stride, j),
    decreases j - i,
{
    if i < j {
        lemma_count_skips(len, stride, i + 1, j);
    }
}

/// Starting from a sampled position with a whole number `q` of strides left
/// before the end, exactly `q` positions are sampled.
proof fn lemma_sampled_count_exact(len: int, stride: int, i: int, q: int)
    requires
        1 <= stride,
        0 <= i <= len,
        i % stride == 0,
        len - i == stride * q,
    ensures
        sampled_count(len, stride, i) == q,
    decreases len - i,
{
    assert(q >= 0) by (nonlinear_arith)
        requires
            stride >= 1,
            stride * q >= 0,
    ;
    if q == 0 {
        assert(len == i);
    } else {
        assert(len - i >= stride && stride * (q - 1) == stride * q - stride) by (nonlinear_arith)
            requires
                stride >= 1,
                q >= 1,
                len - i == stride * q,
        ;
        assert forall|k: int| i + 1 <= k < i + stride implies #[trigger] (k % stride) != 0 by {
            let d = k - i;
            lemma_fundamental_div_mod(i, stride);
            lemma_mod_multiples_vanish(i / stride, d, stride);
            lemma_small_mod(d as nat, stride as nat);
        }
        lemma_count_skips(len, stride, i + 1, i + stride);
        lemma_mod_multiples_vanish(1, i, stride);
        assert((i + stride) % stride == 0) by {
            assert(stride * 1 + i == i + stride);
        }
        lemma_sampled_count_exact(len, stride, i + stride, q - 1);
    }
}

/// If every sampled position of a channel carries the value `c`, and the
/// stride divides the channel's length with quotient `size`, the channel
/// averages to exactly `c`.
proof fn lemma_avg_channel_const(vals: Seq<u8>, stride: int, size: int, c: u8)
    requires
        1 <= stride,
        1 <= size,
        vals.len() as int % stride == 0,
        size == vals.len() as int / stride,
        forall|j: int| 0 <= j < vals.len() && j % stride == 0 ==> vals[j] == c,
    ensures
        spec_avg_channel(vals, stride, size) == c,
{
    let len = vals.len() as int;
    lemma_fundamental_div_mod(len, stride);
    assert(len == stride * size);
    lemma_small_mod(0, stride as nat);
    lemma_sampled_count_exact(len, stride, 0, size);
    lemma_sampled_sum_const(vals, stride, 0, c);
    assert(c * size == size * (c as int)) by (nonlinear_arith);
    lemma_div_multiples_vanish(c as int, size);
}

/// Law: when the stride samples only positions carrying one single color —
/// for instance a frame alternating two colors at a stride that lands on
/// just one of them — the aggregate is exactly that color, provided the
/// stride divides the pixel count evenly (so that the fixed sample size
/// equals the number of sampled pixels).
pub proof fn lemma_aggregate_sampled_uniform(frame: Frame, stride: int, size: int, p: Pixel)
    requires
        frame.wf(),
        1 <= stride,
        1 <= size,
        frame.pixels@.len() as int % stride == 0,
        size == frame.pixels@.len() as int / stride,
        forall|j: int|
            0 <= j < frame.pixels@.len() && j % stride == 0 ==> frame.pixels@[j] == p,
    ensures
        spec_avg_channel(frame.reds(), stride, size) == p.r,
        spec_avg_channel(frame.greens(), stride, size) == p.g,
        spec_avg_channel(frame.blues(), stride, size) == p.b,
{
    assert forall|j: int|
        0 <= j < frame.reds().len() && j % stride == 0 implies frame.reds()[j] == p.r by {
        assert(frame.pixels@[j] == p);
    }
    assert forall|j: int|
        0 <= j < frame.greens().len() && j % stride == 0 implies frame.greens()[j] == p.g by {
        assert(frame.pixels@[j] == p);
    }
    assert forall|j: int|
        0 <= j < frame.blues().len() && j % stride == 0 implies frame.blues()[j] == p.b by {
        assert(frame.pixels@[j] == p);
    }
    lemma_avg_channel_const(frame.reds(), stride, size, p.r);
    lemma_avg_channel_const(frame.greens(), stride, size, p.g);
    lemma_avg_channel_const(frame.blues(), stride, size, p.b);
}

/// Law: averaging a uniform frame is idempotent — whatever the stride, a
/// frame whose pixels all carry one color aggregates to exactly that color,
/// provided the stride divides the pixel count evenly.
pub proof fn lemma_aggregate_uniform(frame: Frame, stride: int, size: int, p: Pixel)
    requires
        frame.wf(),
        1 <= stride,
        1 <= size,
        frame.pixels@.len() as int % stride == 0,
        size == frame.pixels@.len() as int / stride,
        forall|j: int| 0 <= j < frame.pixels@.len() ==> frame.pixels@[j] == p,
    ensures
        spec_avg_channel(frame.reds(), stride, size) == p.r,
        spec_avg_channel(frame.greens(), stride, size) == p.g,
        spec_avg_channel(frame.blues(), stride, size) == p.b,
{
    lemma_aggregate_sampled_uniform(frame, stride, size, p);
}

} // verus!
