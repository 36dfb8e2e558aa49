//! Hysteresis linking: resolve weak classifications in place, in one pass in
//! index order. A weak pixel becomes strong when one of its eight grid
//! neighbors already reads strong at the moment the pixel is visited, is
//! demoted to non-edge when it has in-bounds neighbors but none reads
//! strong, and is left untouched only when every neighbor falls outside the
//! buffer. Because the pass mutates the buffer as it scans, a pixel promoted
//! earlier in the scan can promote later neighbors, but no chain of weak
//! pixels is ever promoted without an already-strong pixel: the pass is
//! deliberately single, not a flood fill.

use vstd::prelude::*;
use crate::threshold::STRONG;

verus! {

/// A value the pass never rewrites: confirmed non-edge or confirmed edge.
pub open spec fn is_settled(v: u8) -> bool {
    v == 0 || v == STRONG
}

/// Whether slot `idx` lies in the buffer and reads strong.
pub open spec fn strong_at(s: Seq<u8>, idx: int) -> bool {
    0 <= idx < s.len() && s[idx] == STRONG
}

/// Whether slot `idx` lies in the buffer.
pub open spec fn in_buf(s: Seq<u8>, idx: int) -> bool {
    0 <= idx < s.len()
}

/// Whether any of the eight grid neighbors of `px`, in a buffer of row
/// length `w`, lies in bounds and reads strong.
pub open spec fn has_strong_neighbor(s: Seq<u8>, w: int, px: int) -> bool {
    strong_at(s, px - w - 1) || strong_at(s, px - w) || strong_at(s, px - w + 1) || strong_at(
        s,
        px - 1,
    ) || strong_at(s, px + 1) || strong_at(s, px + w - 1) || strong_at(s, px + w) || strong_at(
        s,
        px + w + 1,
    )
}

/// Whether any of the eight grid neighbors of `px` lies in bounds at all.
pub open spec fn has_neighbor(s: Seq<u8>, w: int, px: int) -> bool {
    in_buf(s, px - w - 1) || in_buf(s, px - w) || in_buf(s, px - w + 1) || in_buf(s, px - 1)
        || in_buf(s, px + 1) || in_buf(s, px + w - 1) || in_buf(s, px + w) || in_buf(s, px + w + 1)
}

/// The value the pass writes at `px` given the buffer state `s` at the
/// moment `px` is visited.
pub open spec fn resolve(s: Seq<u8>, w: int, px: int) -> u8 {
    if is_settled(s[px]) {
        s[px]
    } else if has_strong_neighbor(s, w, px) {
        STRONG
    } else if has_neighbor(s, w, px) {
        0u8
    } else {
        s[px]
    }
}

/// The buffer after the pass has visited the first `i` pixels, in index
/// order, each against the state its predecessors left behind.
pub open spec fn hyst_upto(s: Seq<u8>, w: int, i: int) -> Seq<u8>
    decreases i,
{
    if i <= 0 {
        s
    } else {
        let t = hyst_upto(s, w, i - 1);
        t.update(i - 1, resolve(t, w, i - 1))
    }
}

/// The buffer after the whole pass.
pub open spec fn hyst_spec(s: Seq<u8>, w: int) -> Seq<u8> {
    hyst_upto(s, w, s.len() as int)
}

/// The pass never changes the buffer's length.
pub proof fn lemma_hyst_upto_len(s: Seq<u8>, w: int, i: int)
    requires
        i <= s.len(),
    ensures
        hyst_upto(s, w, i).len() == s.len(),
    decreases i,
{
    if i > 0 {
        lemma_hyst_upto_len(s, w, i - 1);
    }
}

/// Resolve every weak pixel of a classification buffer against its eight
/// neighbors, in place, in one pass in index order, and return the buffer.
pub fn hysteresis(src: Vec<u8>, image_width: usize) -> (dst: Vec<u8>)
    requires
        src@.len() + (image_width as int) + 1 <= usize::MAX as int,
    ensures
        dst@.len() == src@.len(),
        dst@ == hyst_spec(src@, image_width as int),
{
    let ghost s0 = src@;
    let w = image_width;
    let mut buf = src;
    let n = buf.len();
    let mut px: usize = 0;
    while px < n
        invariant
            n == s0.len(),
            buf@.len() == n,
            w == image_width,
            n + (w as int) + 1 <= usize::MAX as int,
            0 <= px <= n,
            buf@ == hyst_upto(s0, w as int, px as int),
        decreases n - px,
    {
        let ghost t = buf@;
        let v = buf[px];
        if v != STRONG && v != 0 {
            let mut any = false;
            let mut strong = false;
            // top-left, top, top-right
            if px >= w + 1 {
                any = true;
                if buf[px - w - 1] == STRONG {
                    strong = true;
                }
            }
            if px >= w {
                any = true;
                if buf[px - w] == STRONG {
                    strong = true;
                }
            }
            if px + 1 >= w && px + 1 - w < n {
                any = true;
                if buf[px + 1 - w] == STRONG {
                    strong = true;
                }
            }
            // left and right
            if px >= 1 {
                any = true;
                if buf[px - 1] == STRONG {
                    strong = true;
                }
            }
            if px + 1 < n {
                any = true;
                if buf[px + 1] == STRONG {
                    strong = true;
                }
            }
            // bottom-left, bottom, bottom-right
            if px + w >= 1 && px + w - 1 < n {
                any = true;
                if buf[px + w - 1] == STRONG {
                    strong = true;
                }
            }
            if px + w < n {
                any = true;
                if buf[px + w] == STRONG {
                    strong = true;
                }
            }
            if px + w + 1 < n {
                any = true;
                if buf[px + w + 1] == STRONG {
                    strong = true;
                }
            }
            assert(strong == has_strong_neighbor(t, w as int, px as int));
            assert(any == has_neighbor(t, w as int, px as int));
            if strong {
                buf.set(px, STRONG);
            } else if any {
                buf.set(px, 0);
            } else {
                proof {
                    assert(buf@ =~= t.update(px as int, resolve(t, w as int, px as int)));
                }
            }
        } else {
            proof {
                assert(buf@ =~= t.update(px as int, resolve(t, w as int, px as int)));
            }
        }
        px += 1;
    }
    buf
}

/// A weak pixel with a strong neighbor, at any of the eight positions, is
/// promoted to strong when visited.
pub proof fn lemma_weak_promoted(s: Seq<u8>, w: int, px: int)
    requires
        0 <= px < s.len(),
        !is_settled(s[px]),
        has_strong_neighbor(s, w, px),
    ensures
        resolve(s, w, px) == STRONG,
{
}

/// A weak pixel with in-bounds neighbors but no strong one is demoted to
/// non-edge when visited.
pub proof fn lemma_weak_demoted(s: Seq<u8>, w: int, px: int)
    requires
        0 <= px < s.len(),
        !is_settled(s[px]),
        !has_strong_neighbor(s, w, px),
        has_neighbor(s, w, px),
    ensures
        resolve(s, w, px) == 0,
{
}

/// What the whole pass leaves at `px` is exactly what visiting `px` decided:
/// later visits never rewrite an earlier pixel.
pub proof fn lemma_hyst_at(s: Seq<u8>, w: int, px: int)
    requires
        0 <= px < s.len(),
    ensures
        hyst_spec(s, w)[px] == resolve(hyst_upto(s, w, px), w, px),
{
    lemma_hyst_stable(s, w, s.len() as int, px);
}

proof fn lemma_hyst_stable(s: Seq<u8>, w: int, i: int, px: int)
    requires
        0 <= px < i <= s.len(),
    ensures
        hyst_upto(s, w, i)[px] == resolve(hyst_upto(s, w, px), w, px),
    decreases i,
{
    lemma_hyst_upto_len(s, w, px);
    if i == px + 1 {
    } else {
        lemma_hyst_stable(s, w, i - 1, px);
        lemma_hyst_upto_len(s, w, i - 1);
    }
}

/// The pass never invents a strong pixel: a buffer without any strong pixel
/// has none after the pass either, however its weak pixels are chained. This
/// is the single-pass, non-transitive behavior: weak pixels cannot promote
/// one another from nothing.
pub proof fn lemma_no_strong_no_promotion(s: Seq<u8>, w: int)
    requires
        forall|i: int| 0 <= i < s.len() ==> s[i] != STRONG,
    ensures
        forall|i: int| 0 <= i < hyst_spec(s, w).len() ==> hyst_spec(s, w)[i] != STRONG,
{
    lemma_upto_no_strong(s, w, s.len() as int);
}

proof fn lemma_upto_no_strong(s: Seq<u8>, w: int, i: int)
    requires
        i <= s.len(),
        forall|j: int| 0 <= j < s.len() ==> s[j] != STRONG,
    ensures
        forall|j: int| 0 <= j < hyst_upto(s, w, i).len() ==> hyst_upto(s, w, i)[j] != STRONG,
    decreases i,
{
    if i > 0 {
        lemma_upto_no_strong(s, w, i - 1);
        lemma_hyst_upto_len(s, w, i - 1);
        let t = hyst_upto(s, w, i - 1);
        assert(!has_strong_neighbor(t, w, i - 1));
        assert(resolve(t, w, i - 1) != STRONG);
    }
}

} // verus!
