//! The whole detector: the six stages chained over one buffer, luma
//! reduction through hysteresis linking.

use vstd::prelude::*;
use crate::gradient::sobel_spec;
use crate::hysteresis::hyst_spec;
use crate::hysteresis::hysteresis;
use crate::luma::bytes_to_grayscale;
use crate::luma::gray_seq;
use crate::smooth::blur_spec;
use crate::smooth::gaussian_blur;
use crate::suppress::gradient_thresholding;
use crate::suppress::suppress_spec;
use crate::threshold::double_threshold;
use crate::threshold::threshold_spec;

verus! {

/// The classification buffer the whole pipeline leaves behind: the strided
/// input reduced to intensity, smoothed, run through the gradient operator,
/// suppressed, classified, and linked.
pub open spec fn pipeline_spec(s: Seq<u8>, w: int, pw: int) -> Seq<u8> {
    hyst_spec(
        threshold_spec(suppress_spec(sobel_spec(blur_spec(gray_seq(s, pw), w), w), w)),
        w,
    )
}

/// Run the whole detector over a decoded buffer of row length `image_width`
/// pixels and per-pixel byte stride `px_width`. The result is a
/// single-channel classification buffer of one byte per input pixel, each
/// byte either 0 or 255 wherever the pixel had any in-bounds neighbor.
pub fn detect_edges(src: &Vec<u8>, image_width: usize, px_width: usize) -> (dst: Vec<u8>)
    requires
        px_width == 1 || px_width == 3 || px_width == 4,
        src@.len() as int % px_width as int == 0,
        src@.len() > 0,
        2 * (src@.len() as int) + 2 * (image_width as int) + 2 <= usize::MAX as int,
    ensures
        dst@.len() == src@.len() as int / px_width as int,
        dst@ == pipeline_spec(src@, image_width as int, px_width as int),
{
    let gray = bytes_to_grayscale(src, px_width);
    proof {
        assert(gray@.len() >= 1) by (nonlinear_arith)
            requires
                gray@.len() == src@.len() as int / px_width as int,
                src@.len() as int % px_width as int == 0,
                src@.len() > 0,
                1 <= px_width as int <= 4,
        ;
    }
    let smoothed = gaussian_blur(&gray, image_width);
    let suppressed = gradient_thresholding(&smoothed, image_width);
    let classified = double_threshold(&suppressed);
    hysteresis(classified, image_width)
}

} // verus!
