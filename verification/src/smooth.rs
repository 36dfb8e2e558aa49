//! Separable Gaussian smoothing: two five-tap convolution passes, first along
//! rows, then along columns, over a single-channel buffer.
//!
//! The kernel is the radius-2 Gaussian with sigma 1 (the radius halved,
//! truncating, and floored at one), evaluated at the five integer offsets and
//! normalized. The weights are held as fixed-point numerators over the scale
//! `GAUSS_SCALE`; the center weight absorbs the rounding remainder so that the
//! five weights sum to the scale exactly. A tap whose neighbor index falls
//! outside the buffer is skipped entirely, so pixels near the buffer ends
//! receive a weighted sum over fewer taps, which darkens them slightly; that
//! asymmetry is a deliberate property of the design, not renormalized away.

use vstd::prelude::*;

verus! {

/// Fixed-point scale of the kernel weights: 2^32.
pub const GAUSS_SCALE: u64 = 4294967296;

/// Weight at the center tap.
pub const GAUSS_W0: u64 = 1729239504;

/// Weight at offsets one step from the center.
pub const GAUSS_W1: u64 = 1048836778;

/// Weight at offsets two steps from the center.
pub const GAUSS_W2: u64 = 234027118;

/// One kernel term: the weighted sample at `idx`, or nothing when `idx` falls
/// outside the buffer.
pub open spec fn gauss_term(s: Seq<u8>, idx: int, w: int) -> int {
    if 0 <= idx < s.len() {
        w * (s[idx] as int)
    } else {
        0
    }
}

/// The full five-tap weighted sum centered on `px`, with neighbors `step`
/// samples apart.
pub open spec fn gauss_sum(s: Seq<u8>, step: int, px: int) -> int {
    gauss_term(s, px - 2 * step, GAUSS_W2 as int) + gauss_term(s, px - step, GAUSS_W1 as int)
        + gauss_term(s, px, GAUSS_W0 as int) + gauss_term(s, px + step, GAUSS_W1 as int)
        + gauss_term(s, px + 2 * step, GAUSS_W2 as int)
}

/// The smoothed sample at `px`: the five-tap sum truncated back to pixel
/// scale.
pub open spec fn smooth_at(s: Seq<u8>, step: int, px: int) -> u8 {
    (gauss_sum(s, step, px) / (GAUSS_SCALE as int)) as u8
}

/// One whole convolution sweep with neighbors `step` samples apart.
pub open spec fn conv_pass(s: Seq<u8>, step: int) -> Seq<u8> {
    Seq::new(s.len(), |px: int| smooth_at(s, step, px))
}

/// Both sweeps: horizontal (neighbors one sample apart), then vertical
/// (neighbors one row, `w` samples, apart) over the horizontal result.
pub open spec fn blur_spec(s: Seq<u8>, w: int) -> Seq<u8> {
    conv_pass(conv_pass(s, 1), w)
}

/// The five kernel weights sum exactly to the fixed-point scale.
pub proof fn lemma_kernel_normalized()
    ensures
        2 * (GAUSS_W2 as int) + 2 * (GAUSS_W1 as int) + GAUSS_W0 as int == GAUSS_SCALE as int,
{
}

/// The five-tap sum at one pixel, all neighbors in bounds.
fn conv_pixel(src: &Vec<u8>, step: usize, px: usize) -> (r: u8)
    requires
        px < src@.len(),
        src@.len() + 2 * (step as int) <= usize::MAX as int,
    ensures
        r == smooth_at(src@, step as int, px as int),
{
    let n = src.len();
    let mut acc: u64 = 0;
    if px >= 2 * step {
        acc = acc + GAUSS_W2 * (src[px - 2 * step] as u64);
    }
    if px >= step {
        acc = acc + GAUSS_W1 * (src[px - step] as u64);
    }
    acc = acc + GAUSS_W0 * (src[px] as u64);
    if px + step < n {
        acc = acc + GAUSS_W1 * (src[px + step] as u64);
    }
    if px + 2 * step < n {
        acc = acc + GAUSS_W2 * (src[px + 2 * step] as u64);
    }
    assert(acc as int == gauss_sum(src@, step as int, px as int));
    assert(acc <= 255 * GAUSS_SCALE);
    (acc / GAUSS_SCALE) as u8
}

/// One convolution sweep over the whole buffer.
fn conv_sweep(src: &Vec<u8>, step: usize) -> (dst: Vec<u8>)
    requires
        src@.len() + 2 * (step as int) <= usize::MAX as int,
    ensures
        dst@ == conv_pass(src@, step as int),
{
    let n = src.len();
    let mut dst: Vec<u8> = Vec::new();
    let mut px: usize = 0;
    while px < n
        invariant
            n == src@.len(),
            src@.len() + 2 * (step as int) <= usize::MAX as int,
            0 <= px <= n,
            dst@.len() == px,
            forall|j: int| 0 <= j < px ==> dst@[j] == smooth_at(src@, step as int, j),
        decreases n - px,
    {
        let v = conv_pixel(src, step, px);
        dst.push(v);
        px += 1;
    }
    proof {
        assert(dst@ =~= conv_pass(src@, step as int));
    }
    dst
}

/// Smooth a single-channel buffer of row length `image_width`: a horizontal
/// five-tap Gaussian sweep, then a vertical one over its completed result.
/// The output has the same length as the input.
pub fn gaussian_blur(src: &Vec<u8>, image_width: usize) -> (dst: Vec<u8>)
    requires
        src@.len() + 2 * (image_width as int) <= usize::MAX as int,
        src@.len() + 2 <= usize::MAX as int,
    ensures
        dst@.len() == src@.len(),
        dst@ == blur_spec(src@, image_width as int),
{
    let h = conv_sweep(src, 1);
    conv_sweep(&h, image_width)
}

/// Smoothing a uniform buffer returns the same value at every pixel far
/// enough from the buffer ends that no tap of either sweep is skipped: there
/// the weights sum to the full scale, so the weighted average of a constant
/// is that constant exactly.
pub proof fn lemma_blur_uniform(s: Seq<u8>, w: int, v: u8)
    requires
        forall|i: int| 0 <= i < s.len() ==> s[i] == v,
        w >= 0,
    ensures
        forall|px: int|
            2 + 2 * w <= px && px + 2 * w + 2 < s.len() ==> blur_spec(s, w)[px] == v,
{
    let h = conv_pass(s, 1);
    assert forall|q: int| 2 <= q && q + 2 < s.len() implies h[q] == v by {
        lemma_gauss_sum_uniform(s, 1, q, v);
    }
    assert forall|px: int|
        2 + 2 * w <= px && px + 2 * w + 2 < s.len() implies blur_spec(s, w)[px] == v by {
        lemma_gauss_sum_all_in(h, w, px, v);
    }
}

/// One sweep never brightens a buffer past a bound on its values: the
/// weights are nonnegative and sum to at most the full scale, so skipped
/// boundary taps can only darken a pixel, never lighten it.
pub proof fn lemma_conv_pass_bounded(s: Seq<u8>, step: int, v: u8)
    requires
        forall|i: int| 0 <= i < s.len() ==> s[i] <= v,
    ensures
        forall|px: int| 0 <= px < s.len() ==> conv_pass(s, step)[px] <= v,
{
    assert forall|px: int| 0 <= px < s.len() implies conv_pass(s, step)[px] <= v by {
        assert(gauss_sum(s, step, px) <= (GAUSS_SCALE as int) * (v as int));
        assert((GAUSS_SCALE as int) * (v as int) / (GAUSS_SCALE as int) == v as int)
            by (nonlinear_arith);
    }
}

/// Smoothing never brightens: every output pixel stays at or below any
/// bound on the input values.
pub proof fn lemma_blur_never_brightens(s: Seq<u8>, w: int, v: u8)
    requires
        forall|i: int| 0 <= i < s.len() ==> s[i] <= v,
    ensures
        forall|px: int| 0 <= px < s.len() ==> blur_spec(s, w)[px] <= v,
{
    lemma_conv_pass_bounded(s, 1, v);
    lemma_conv_pass_bounded(conv_pass(s, 1), w, v);
}

/// A pixel whose five taps are all in bounds and all read the value `v`
/// smooths to `v`.
proof fn lemma_gauss_sum_all_in(s: Seq<u8>, step: int, px: int, v: u8)
    requires
        step >= 0,
        0 <= px - 2 * step,
        px + 2 * step < s.len(),
        s[px - 2 * step] == v,
        s[px - step] == v,
        s[px] == v,
        s[px + step] == v,
        s[px + 2 * step] == v,
    ensures
        smooth_at(s, step, px) == v,
{
    assert(gauss_sum(s, step, px) == (GAUSS_SCALE as int) * (v as int));
    assert((GAUSS_SCALE as int) * (v as int) / (GAUSS_SCALE as int) == v as int)
        by (nonlinear_arith);
}

/// Specialization used for the horizontal sweep of a uniform buffer.
proof fn lemma_gauss_sum_uniform(s: Seq<u8>, step: int, px: int, v: u8)
    requires
        step >= 0,
        forall|i: int| 0 <= i < s.len() ==> s[i] == v,
        0 <= px - 2 * step,
        px + 2 * step < s.len(),
    ensures
        smooth_at(s, step, px) == v,
{
    lemma_gauss_sum_all_in(s, step, px, v);
}

} // verus!
