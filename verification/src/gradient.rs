//! Sobel gradient operator: per pixel, an edge-strength magnitude and a
//! quantized gradient direction, interleaved into a buffer of twice the
//! input length.
//!
//! Each axis applies the classic smoothing kernel `[1, 2, 1]` and differencing
//! kernel `[1, 0, -1]` in two phases. The second phase accumulates into the
//! running sum: every in-bounds tap with kernel weight `k` turns the sum `a`
//! into `a + a * k`, so the phase multiplies the first phase's sum by a factor
//! per in-bounds tap. Along the horizontal axis the differencing phase runs
//! second, and its `-1` tap zeroes the sum wherever the right neighbor is in
//! bounds: the horizontal response survives only at the very last sample.
//! Along the vertical axis the differencing phase runs first, so the vertical
//! response is the row difference scaled by up to 12. This accumulation is a
//! deliberate, reproduced property of the design; a corrected variant would
//! be a distinct operator.

use vstd::prelude::*;

verus! {

/// One three-tap kernel term: the weighted sample at `idx`, or nothing when
/// `idx` falls outside the buffer.
pub open spec fn tap3(s: Seq<u8>, idx: int, w: int) -> int {
    if 0 <= idx < s.len() {
        w * (s[idx] as int)
    } else {
        0
    }
}

/// First-phase smoothing sum `[1, 2, 1]` centered on `px`, neighbors `step`
/// samples apart.
pub open spec fn smooth3_sum(s: Seq<u8>, step: int, px: int) -> int {
    tap3(s, px - step, 1) + tap3(s, px, 2) + tap3(s, px + step, 1)
}

/// First-phase differencing sum `[1, 0, -1]` centered on `px`.
pub open spec fn diff3_sum(s: Seq<u8>, step: int, px: int) -> int {
    tap3(s, px - step, 1) + tap3(s, px + step, -1)
}

/// The horizontal response: the smoothing sum, doubled by the accumulated
/// `1` tap where the left neighbor is in bounds, and zeroed by the
/// accumulated `-1` tap where the right neighbor is in bounds.
pub open spec fn grad_x(s: Seq<u8>, px: int) -> int {
    if px + 1 < s.len() {
        0
    } else if px >= 1 {
        2 * smooth3_sum(s, 1, px)
    } else {
        smooth3_sum(s, 1, px)
    }
}

/// The vertical response: the row difference, multiplied by 2 for each
/// in-bounds outer tap of the accumulated smoothing phase and by 3 for its
/// center tap.
pub open spec fn grad_y(s: Seq<u8>, w: int, py: int) -> int {
    let base = 3 * diff3_sum(s, w, py);
    let base = if 0 <= py - w && py - w < s.len() {
        2 * base
    } else {
        base
    };
    if 0 <= py + w && py + w < s.len() {
        2 * base
    } else {
        base
    }
}

pub open spec fn int_abs(v: int) -> int {
    if v >= 0 {
        v
    } else {
        -v
    }
}

/// The stored horizontal byte: the magnitude of the horizontal response,
/// truncated into a byte.
pub open spec fn x_store(s: Seq<u8>, px: int) -> u8 {
    (int_abs(grad_x(s, px)) % 256) as u8
}

/// The least `m` at or above the start point whose square reaches `g`.
pub open spec fn csqrt_from(g: int, m: int) -> int
    decreases (if g - m * m > 0 { g - m * m } else { 0 }) via csqrt_from_dec
{
    if 0 <= m && m * m < g {
        csqrt_from(g, m + 1)
    } else {
        m
    }
}

#[via_fn]
proof fn csqrt_from_dec(g: int, m: int) {
    if 0 <= m && m * m < g {
        assert((m + 1) * (m + 1) > m * m) by (nonlinear_arith)
            requires
                m >= 0,
        ;
    }
}

/// The square root of `g`, rounded up.
pub open spec fn ceil_sqrt(g: int) -> int {
    csqrt_from(g, 0)
}

/// The magnitude byte at pixel `py`: the Euclidean norm of the two axis
/// responses (the horizontal one as its stored byte), rounded up and
/// saturated into a byte.
pub open spec fn mag_at(s: Seq<u8>, w: int, py: int) -> u8 {
    let x = x_store(s, py) as int;
    let y = grad_y(s, w, py);
    let c = ceil_sqrt(x * x + y * y);
    if c > 255 {
        255u8
    } else {
        c as u8
    }
}

/// The quantized direction code for a gradient with horizontal part `x` (a
/// stored magnitude byte, never negative) and vertical part `y`. The code is
/// the nearest-octant band of the absolute angle of the gradient: below 22.5
/// degrees maps to 0, from 22.5 to 67.5 maps to 45, and beyond 67.5 maps to
/// 90. With `x` never negative the angle never exceeds 90 degrees, so the
/// bands that fold 135 and the wraparound at 180 back onto these codes are
/// never reached here. The band comparisons multiply out the tangent
/// thresholds `tan(22.5)^2 = 3 - 2*sqrt(2)` and `tan(67.5)^2 = 3 + 2*sqrt(2)`
/// into exact integer inequalities.
pub open spec fn dir_code(x: int, y: int) -> u8 {
    let ay = int_abs(y);
    let xx = x * x;
    let ayay = ay * ay;
    if x == 0 {
        if ay > 0 {
            90u8
        } else {
            0u8
        }
    } else if 3 * xx - ayay > 0 && (3 * xx - ayay) * (3 * xx - ayay) > (8 * xx) * xx {
        0u8
    } else if ayay - 3 * xx <= 0 || (ayay - 3 * xx) * (ayay - 3 * xx) < (8 * xx) * xx {
        45u8
    } else {
        90u8
    }
}

/// The direction code at pixel `py`.
pub open spec fn dir_at(s: Seq<u8>, w: int, py: int) -> u8 {
    dir_code(x_store(s, py) as int, grad_y(s, w, py))
}

/// The whole gradient buffer: magnitude at even slots, direction code at odd
/// slots.
pub open spec fn sobel_spec(s: Seq<u8>, w: int) -> Seq<u8> {
    Seq::new(2 * s.len(), |i: int| if i % 2 == 0 {
        mag_at(s, w, i / 2)
    } else {
        dir_at(s, w, i / 2)
    })
}

/// A well-formed gradient buffer: even length, and every odd slot holds one
/// of the four direction codes.
pub open spec fn wf_gradient(g: Seq<u8>) -> bool {
    g.len() % 2 == 0 && forall|k: int|
        0 <= k < g.len() / 2 ==> (#[trigger] g[2 * k + 1] == 0 || g[2 * k + 1] == 45 || g[2 * k
            + 1] == 90 || g[2 * k + 1] == 135)
}

/// The square root search of `ceil_sqrt`, run upward from zero.
fn ceil_sqrt_exec(g: u32) -> (r: u32)
    requires
        g <= 16000000,
    ensures
        r as int == ceil_sqrt(g as int),
{
    let mut m: u32 = 0;
    loop
        invariant
            g <= 16000000,
            m <= 4000,
            csqrt_from(g as int, 0) == csqrt_from(g as int, m as int),
        ensures
            m as int * (m as int) >= g,
            csqrt_from(g as int, 0) == csqrt_from(g as int, m as int),
        decreases g - m,
    {
        proof {
            assert(m * m <= 16000000) by (nonlinear_arith)
                requires
                    m <= 4000,
            ;
        }
        let sq = m * m;
        if sq >= g {
            break;
        }
        proof {
            if m >= 1 {
                assert(m <= m * m) by (nonlinear_arith)
                    requires
                        m >= 1,
                ;
            }
            assert(m < 4000) by (nonlinear_arith)
                requires
                    m * m < g,
                    g <= 16000000,
                    m >= 0,
            ;
        }
        m += 1;
    }
    m
}

/// The quantized direction of a gradient with parts `x` (a stored byte) and
/// `y`.
fn dir_code_exec(x: u8, y: i32) -> (r: u8)
    requires
        -10000 <= y <= 10000,
    ensures
        r == dir_code(x as int, y as int),
{
    let xi = x as i64;
    let ay: i64 = if y < 0 {
        -(y as i64)
    } else {
        y as i64
    };
    proof {
        assert(xi * xi <= 65025) by (nonlinear_arith)
            requires
                0 <= xi <= 255,
        ;
        assert(ay * ay <= 100000000) by (nonlinear_arith)
            requires
                0 <= ay <= 10000,
        ;
    }
    if xi == 0 {
        if ay > 0 {
            90
        } else {
            0
        }
    } else {
        let xx = xi * xi;
        let ayay = ay * ay;
        let t0 = 3 * xx - ayay;
        let e = 8 * xx;
        proof {
            assert(t0 * t0 <= 100000000 * 100000000) by (nonlinear_arith)
                requires
                    -100000000 <= t0 <= 100000000,
            ;
            assert(e * xx <= 520200 * 65025) by (nonlinear_arith)
                requires
                    0 <= e <= 520200,
                    0 <= xx <= 65025,
            ;
        }
        if t0 > 0 && t0 * t0 > e * xx {
            0
        } else {
            let t1 = ayay - 3 * xx;
            proof {
                assert(t1 * t1 <= 100000000 * 100000000) by (nonlinear_arith)
                    requires
                        -100000000 <= t1 <= 100000000,
                ;
            }
            if t1 <= 0 || t1 * t1 < e * xx {
                45
            } else {
                90
            }
        }
    }
}

/// Apply the gradient operator to a smoothed single-channel buffer of row
/// length `image_width`. The result interleaves a saturated magnitude byte
/// and a direction code per pixel, and is a well-formed gradient buffer.
pub fn sobel_filter(src: &Vec<u8>, image_width: usize) -> (dst: Vec<u8>)
    requires
        src@.len() + (image_width as int) <= usize::MAX as int,
        src@.len() + 1 <= usize::MAX as int,
        2 * src@.len() <= usize::MAX as int,
    ensures
        dst@.len() == 2 * src@.len(),
        dst@ == sobel_spec(src@, image_width as int),
        wf_gradient(dst@),
{
    let n = src.len();
    let w = image_width;
    let mut dst: Vec<u8> = Vec::new();
    let mut py: usize = 0;
    while py < n
        invariant
            n == src@.len(),
            w == image_width,
            n + (w as int) <= usize::MAX as int,
            n + 1 <= usize::MAX as int,
            2 * n <= usize::MAX as int,
            0 <= py <= n,
            dst@.len() == 2 * py,
            forall|i: int|
                0 <= i < 2 * py ==> dst@[i] == (if i % 2 == 0 {
                    mag_at(src@, w as int, i / 2)
                } else {
                    dir_at(src@, w as int, i / 2)
                }),
        decreases n - py,
    {
        // horizontal axis: smoothing phase, then the accumulated differencing
        // phase, which doubles on the left tap and zeroes on the right tap
        let mut a: i32 = 0;
        if py >= 1 {
            a = a + (src[py - 1] as i32);
        }
        a = a + 2 * (src[py] as i32);
        if py + 1 < n {
            a = a + (src[py + 1] as i32);
        }
        if py >= 1 {
            a = a + a;
        }
        // the center tap has weight 0 and leaves the sum unchanged
        if py + 1 < n {
            a = a - a;
        }
        assert(a == grad_x(src@, py as int));
        let ax: i32 = if a < 0 {
            -a
        } else {
            a
        };
        let xs: u8 = (ax % 256) as u8;
        assert(xs == x_store(src@, py as int));
        // vertical axis: differencing phase, then the accumulated smoothing
        // phase, whose in-bounds taps multiply by 2, 3 and 2
        let mut b: i32 = 0;
        if py >= w {
            b = b + (src[py - w] as i32);
        }
        // the center tap has weight 0 and leaves the sum unchanged
        if py + w < n {
            b = b - (src[py + w] as i32);
        }
        if py >= w {
            b = b + b;
        }
        b = b + 2 * b;
        if py + w < n {
            b = b + b;
        }
        assert(b == grad_y(src@, w as int, py as int));
        assert(-3060 <= b <= 3060);
        proof {
            assert((xs as int) * (xs as int) <= 65025) by (nonlinear_arith)
                requires
                    0 <= xs as int <= 255,
            ;
            assert(0 <= (b as int) * (b as int) <= 9363600) by (nonlinear_arith)
                requires
                    -3060 <= b as int <= 3060,
            ;
        }
        let bb: i32 = b * b;
        let g: u32 = (xs as u32) * (xs as u32) + (bb as u32);
        let c = ceil_sqrt_exec(g);
        let mag: u8 = if c > 255 {
            255
        } else {
            c as u8
        };
        let dir = dir_code_exec(xs, b);
        assert(mag == mag_at(src@, w as int, py as int));
        assert(dir == dir_at(src@, w as int, py as int));
        dst.push(mag);
        dst.push(dir);
        py += 1;
    }
    proof {
        assert(dst@ =~= sobel_spec(src@, image_width as int));
        assert forall|k: int| 0 <= k < dst@.len() / 2 implies (#[trigger] dst@[2 * k + 1] == 0
            || dst@[2 * k + 1] == 45 || dst@[2 * k + 1] == 90 || dst@[2 * k + 1] == 135) by {
            assert((2 * k + 1) % 2 == 1 && (2 * k + 1) / 2 == k) by (nonlinear_arith);
        }
    }
    dst
}

/// The gradient of a uniform buffer has zero magnitude at every pixel whose
/// row neighbors both lie in bounds: the vertical difference of equal rows
/// vanishes, and the horizontal response is zeroed by the accumulated
/// differencing tap everywhere before the last sample. Pixels of the first
/// and last row, whose one-sided vertical difference survives, are excluded.
pub proof fn lemma_sobel_uniform(s: Seq<u8>, w: int, v: u8)
    requires
        forall|i: int| 0 <= i < s.len() ==> s[i] == v,
        w >= 1,
    ensures
        forall|py: int| w <= py && py + w < s.len() ==> mag_at(s, w, py) == 0,
{
    assert forall|py: int| w <= py && py + w < s.len() implies mag_at(s, w, py) == 0 by {
        assert(grad_y(s, w, py) == 0);
        assert(py + 1 < s.len());
        assert(grad_x(s, py) == 0);
        assert(ceil_sqrt(0) == 0);
    }
}

} // verus!
