//! Luma reduction: collapse a multi-channel buffer to single-channel
//! intensity with fixed per-mille weights.

use vstd::prelude::*;

verus! {

/// Red weight, in thousandths.
pub const LUMA_RED: u32 = 299;

/// Green weight, in thousandths.
pub const LUMA_GREEN: u32 = 587;

/// Blue weight, in thousandths. Kept at this value deliberately: the three
/// weights do not sum to one thousand, and downstream results depend on the
/// exact set.
pub const LUMA_BLUE: u32 = 144;

/// The weighted intensity of one pixel, truncating the per-mille sum and
/// saturating into a byte.
pub open spec fn luma_value(r: u8, g: u8, b: u8) -> u8 {
    let v = (299 * r + 587 * g + 144 * b) / 1000;
    if v > 255 {
        255u8
    } else {
        v as u8
    }
}

/// The reduced intensity of pixel `k` of a buffer with per-pixel byte stride
/// `pw`: the byte itself for single-channel input, the weighted luma of the
/// first three channels otherwise. A fourth channel never contributes.
pub open spec fn gray_at(s: Seq<u8>, pw: int, k: int) -> u8 {
    if pw == 1 {
        s[k]
    } else {
        luma_value(s[pw * k], s[pw * k + 1], s[pw * k + 2])
    }
}

/// The whole reduced buffer: one intensity byte per pixel of the strided
/// input.
pub open spec fn gray_seq(s: Seq<u8>, pw: int) -> Seq<u8> {
    Seq::new((s.len() as int / pw) as nat, |k: int| gray_at(s, pw, k))
}

/// Reduce a buffer with per-pixel byte stride `px_width` (1, 3 or 4) to a
/// single-channel intensity buffer of one byte per pixel. Stride 1 passes the
/// buffer through unchanged.
pub fn bytes_to_grayscale(src: &Vec<u8>, px_width: usize) -> (dst: Vec<u8>)
    requires
        px_width == 1 || px_width == 3 || px_width == 4,
        src@.len() as int % px_width as int == 0,
    ensures
        dst@.len() == src@.len() as int / px_width as int,
        forall|k: int| 0 <= k < dst@.len() ==> dst@[k] == gray_at(src@, px_width as int, k),
        dst@ == gray_seq(src@, px_width as int),
        px_width == 1 ==> dst@ == src@,
{
    let n = src.len();
    let m = n / px_width;
    proof {
        assert(px_width * m == n) by (nonlinear_arith)
            requires
                n as int % (px_width as int) == 0,
                m as int == n as int / (px_width as int),
                px_width >= 1,
        ;
    }
    let mut dst: Vec<u8> = Vec::new();
    let mut i: usize = 0;
    let mut k: usize = 0;
    while k < m
        invariant
            n == src@.len(),
            m as int == n as int / (px_width as int),
            px_width * m == n,
            px_width == 1 || px_width == 3 || px_width == 4,
            0 <= k <= m,
            i == px_width * k,
            dst@.len() == k,
            forall|j: int| 0 <= j < k ==> dst@[j] == gray_at(src@, px_width as int, j),
        decreases m - k,
    {
        proof {
            assert(px_width * (k + 1) == px_width * k + px_width) by (nonlinear_arith);
            assert(px_width * (k + 1) <= px_width * m) by (nonlinear_arith)
                requires
                    k + 1 <= m,
                    px_width >= 1,
            ;
        }
        if px_width == 1 {
            dst.push(src[i]);
        } else {
            let v = LUMA_RED * (src[i] as u32) + LUMA_GREEN * (src[i + 1] as u32) + LUMA_BLUE
                * (src[i + 2] as u32);
            let v = v / 1000;
            if v > 255 {
                dst.push(255);
            } else {
                dst.push(v as u8);
            }
        }
        i += px_width;
        k += 1;
    }
    proof {
        assert(dst@ =~= gray_seq(src@, px_width as int));
        if px_width == 1 {
            assert(dst@ =~= src@);
        }
    }
    dst
}

/// A fourth (alpha) channel never reaches the reduced output: two stride-4
/// buffers that agree everywhere outside the alpha bytes reduce to the same
/// intensities.
pub proof fn lemma_alpha_ignored(s1: Seq<u8>, s2: Seq<u8>)
    requires
        s1.len() == s2.len(),
        s1.len() % 4 == 0,
        forall|i: int| 0 <= i < s1.len() && i % 4 != 3 ==> s1[i] == s2[i],
    ensures
        forall|k: int| 0 <= k < s1.len() / 4 ==> gray_at(s1, 4, k) == gray_at(s2, 4, k),
{
    assert forall|k: int| 0 <= k < s1.len() / 4 implies gray_at(s1, 4, k) == gray_at(s2, 4, k) by {
        assert((4 * k) % 4 == 0 && (4 * k + 1) % 4 == 1 && (4 * k + 2) % 4 == 2) by (nonlinear_arith);
        assert(4 * k + 2 < s1.len()) by (nonlinear_arith)
            requires
                0 <= k < s1.len() / 4,
                s1.len() % 4 == 0,
        ;
    }
}

} // verus!
