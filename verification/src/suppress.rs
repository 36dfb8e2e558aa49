//! Non-maximum suppression: thin the gradient response by keeping a pixel's
//! magnitude only where neither neighbor along its gradient direction beats
//! it.

use vstd::prelude::*;
use crate::gradient::sobel_spec;
use crate::gradient::sobel_filter;
use crate::gradient::wf_gradient;

verus! {

/// Gradient-buffer slot of the first compared neighbor of the pixel at even
/// slot `px`: two slots back for the horizontal code, one doubled row up for
/// the vertical code, and the mixed offsets for the diagonal codes. `d` is
/// the doubled row length of the gradient buffer.
pub open spec fn nb_fst(d: int, px: int, code: u8) -> int {
    if code == 0 {
        px - 2
    } else if code == 45 {
        px - d + 2
    } else if code == 90 {
        px - d
    } else {
        px - d - 2
    }
}

/// Gradient-buffer slot of the second compared neighbor, mirroring the
/// first about `px`.
pub open spec fn nb_snd(d: int, px: int, code: u8) -> int {
    if code == 0 {
        px + 2
    } else if code == 45 {
        px + d - 2
    } else if code == 90 {
        px + d
    } else {
        px + d + 2
    }
}

/// Whether the magnitude stored at slot `idx` beats `m`: an out-of-bounds
/// neighbor is skipped and never wins the comparison.
pub open spec fn beats(g: Seq<u8>, idx: int, m: u8) -> bool {
    0 <= idx < g.len() && g[idx] > m
}

/// The suppressed magnitude of pixel `k`: its own magnitude, unless a
/// compared neighbor along its gradient direction holds a strictly greater
/// magnitude.
pub open spec fn suppress_at(g: Seq<u8>, w: int, k: int) -> u8 {
    let px = 2 * k;
    let code = g[px + 1];
    let m = g[px];
    if beats(g, nb_fst(2 * w, px, code), m) || beats(g, nb_snd(2 * w, px, code), m) {
        0u8
    } else {
        m
    }
}

/// The whole suppressed buffer: one magnitude byte per pixel of the
/// gradient buffer.
pub open spec fn suppress_spec(g: Seq<u8>, w: int) -> Seq<u8> {
    Seq::new(g.len() / 2, |k: int| suppress_at(g, w, k))
}

/// Keep each pixel of a well-formed gradient buffer only where it is a local
/// maximum along its gradient direction; the result is single-channel, half
/// the gradient buffer's length.
pub fn nonmax_suppress(g: &Vec<u8>, image_width: usize) -> (dst: Vec<u8>)
    requires
        wf_gradient(g@),
        g@.len() + 2 * (image_width as int) + 2 <= usize::MAX as int,
    ensures
        dst@.len() == g@.len() / 2,
        forall|k: int| 0 <= k < dst@.len() ==> dst@[k] == suppress_at(g@, image_width as int, k),
        dst@ == suppress_spec(g@, image_width as int),
{
    let n2 = g.len();
    let n = n2 / 2;
    let d = 2 * image_width;
    let mut dst: Vec<u8> = Vec::new();
    let mut k: usize = 0;
    while k < n
        invariant
            n2 == g@.len(),
            n == n2 / 2,
            n2 % 2 == 0,
            d == 2 * (image_width as int),
            n2 + d + 2 <= usize::MAX as int,
            wf_gradient(g@),
            0 <= k <= n,
            dst@.len() == k,
            forall|j: int| 0 <= j < k ==> dst@[j] == suppress_at(g@, image_width as int, j),
        decreases n - k,
    {
        let px = 2 * k;
        assert(px + 1 < n2);
        let code = g[px + 1];
        let m = g[px];
        let mut kept = m;
        // first compared neighbor
        if code == 0 {
            if px >= 2 && g[px - 2] > m {
                kept = 0;
            }
        } else if code == 45 {
            if px + 2 >= d && px + 2 - d < n2 && g[px + 2 - d] > m {
                kept = 0;
            }
        } else if code == 90 {
            if px >= d && g[px - d] > m {
                kept = 0;
            }
        } else {
            if px >= d + 2 && g[px - d - 2] > m {
                kept = 0;
            }
        }
        // second compared neighbor
        if code == 0 {
            if px + 2 < n2 && g[px + 2] > m {
                kept = 0;
            }
        } else if code == 45 {
            if px + d >= 2 && px + d - 2 < n2 && g[px + d - 2] > m {
                kept = 0;
            }
        } else if code == 90 {
            if px + d < n2 && g[px + d] > m {
                kept = 0;
            }
        } else {
            if px + d + 2 < n2 && g[px + d + 2] > m {
                kept = 0;
            }
        }
        assert(kept == suppress_at(g@, image_width as int, k as int));
        dst.push(kept);
        k += 1;
    }
    proof {
        assert(dst@ =~= suppress_spec(g@, image_width as int));
    }
    dst
}

/// Apply the gradient operator and suppression in one step: the smoothed
/// buffer in, the thinned magnitude buffer out, with the same length.
pub fn gradient_thresholding(src: &Vec<u8>, image_width: usize) -> (dst: Vec<u8>)
    requires
        2 * src@.len() + 2 * (image_width as int) + 2 <= usize::MAX as int,
    ensures
        dst@.len() == src@.len(),
        dst@ == suppress_spec(sobel_spec(src@, image_width as int), image_width as int),
{
    let g = sobel_filter(src, image_width);
    nonmax_suppress(&g, image_width)
}

/// A magnitude buffer that falls away from a single peak in every compared
/// direction keeps only the peak: the peak, beaten by neither of its
/// compared neighbors, survives with its own magnitude, and every other
/// pixel, beaten by some compared neighbor, is suppressed to zero.
pub proof fn lemma_single_peak(g: Seq<u8>, w: int, peak: int)
    requires
        wf_gradient(g),
        0 <= peak < g.len() / 2,
        forall|k: int|
            0 <= k < g.len() / 2 && k != peak ==> (beats(g, nb_fst(2 * w, 2 * k, #[trigger] g[2
                * k + 1]), g[2 * k]) || beats(g, nb_snd(2 * w, 2 * k, g[2 * k + 1]), g[2 * k])),
        !beats(g, nb_fst(2 * w, 2 * peak, g[2 * peak + 1]), g[2 * peak]),
        !beats(g, nb_snd(2 * w, 2 * peak, g[2 * peak + 1]), g[2 * peak]),
    ensures
        suppress_at(g, w, peak) == g[2 * peak],
        forall|k: int| 0 <= k < g.len() / 2 && k != peak ==> suppress_at(g, w, k) == 0,
{
}

} // verus!
