//! Double thresholding: classify suppressed gradient magnitudes as strong
//! edges, weak candidates, or non-edges, with cutoffs derived from the
//! buffer's own maximum.

use vstd::prelude::*;

verus! {

/// Classification written for a confirmed edge pixel.
pub const STRONG: u8 = 255;

/// Classification written for a pixel that is neither a confirmed edge nor a
/// confirmed non-edge; hysteresis linking resolves it afterwards.
pub const WEAK: u8 = 25;

/// The largest byte in `s`, or `0` for the empty sequence.
pub open spec fn seq_max(s: Seq<u8>) -> int
    decreases s.len(),
{
    if s.len() == 0 {
        0
    } else {
        let rest = seq_max(s.drop_last());
        if s.last() as int > rest {
            s.last() as int
        } else {
            rest
        }
    }
}

/// The upper cutoff: seven tenths of the buffer maximum, truncating.
pub open spec fn high_cut(s: Seq<u8>) -> int {
    seq_max(s) * 7 / 10
}

/// The lower cutoff: half of the buffer maximum, truncating.
pub open spec fn low_cut(s: Seq<u8>) -> int {
    seq_max(s) * 5 / 10
}

/// How one magnitude byte classifies against the two cutoffs: below `low` is
/// a non-edge, at or above `high` is a strong edge, anything between is a
/// weak candidate. An all-zero buffer therefore classifies as all strong:
/// both cutoffs collapse to zero and every byte sits at the `high` cutoff.
pub open spec fn classify(v: u8, low: int, high: int) -> u8 {
    if (v as int) < low {
        0
    } else if v as int >= high {
        STRONG
    } else {
        WEAK
    }
}

proof fn lemma_seq_max_take_succ(s: Seq<u8>, i: int)
    requires
        0 <= i < s.len(),
    ensures
        seq_max(s.take(i + 1)) == if s[i] as int > seq_max(s.take(i)) {
            s[i] as int
        } else {
            seq_max(s.take(i))
        },
{
    assert(s.take(i + 1).drop_last() =~= s.take(i));
    assert(s.take(i + 1).last() == s[i]);
}

/// A buffer of zeros has maximum zero.
pub proof fn lemma_seq_max_all_zero(s: Seq<u8>)
    requires
        forall|i: int| 0 <= i < s.len() ==> s[i] == 0,
    ensures
        seq_max(s) == 0,
    decreases s.len(),
{
    if s.len() > 0 {
        assert(forall|i: int| 0 <= i < s.drop_last().len() ==> s.drop_last()[i] == 0);
        lemma_seq_max_all_zero(s.drop_last());
    }
}

/// The whole classification buffer: every byte classified against the two
/// cutoffs derived from the buffer's own maximum.
pub open spec fn threshold_spec(s: Seq<u8>) -> Seq<u8> {
    Seq::new(s.len(), |i: int| classify(s[i], low_cut(s), high_cut(s)))
}

/// Classify every pixel of a suppressed magnitude buffer against the two
/// cutoffs derived from the buffer's own maximum. If the input is entirely
/// zero, every pixel classifies as strong.
pub fn double_threshold(src: &Vec<u8>) -> (dst: Vec<u8>)
    requires
        src@.len() > 0,
    ensures
        dst@.len() == src@.len(),
        forall|i: int|
            0 <= i < dst@.len() ==> dst@[i] == classify(src@[i], low_cut(src@), high_cut(src@)),
        dst@ == threshold_spec(src@),
        (forall|i: int| 0 <= i < src@.len() ==> src@[i] == 0) ==> (forall|i: int|
            0 <= i < dst@.len() ==> dst@[i] == STRONG),
{
    let n = src.len();
    let mut max: u8 = 0;
    let mut i: usize = 0;
    while i < n
        invariant
            n == src@.len(),
            0 <= i <= n,
            max as int == seq_max(src@.take(i as int)),
        decreases n - i,
    {
        proof {
            lemma_seq_max_take_succ(src@, i as int);
        }
        if src[i] > max {
            max = src[i];
        }
        i += 1;
    }
    proof {
        assert(src@.take(n as int) =~= src@);
    }
    let high = ((max as u32) * 7 / 10) as u8;
    let low = ((max as u32) * 5 / 10) as u8;
    let mut dst: Vec<u8> = Vec::new();
    let mut j: usize = 0;
    while j < n
        invariant
            n == src@.len(),
            0 <= j <= n,
            dst@.len() == j,
            high as int == high_cut(src@),
            low as int == low_cut(src@),
            forall|k: int|
                0 <= k < j ==> dst@[k] == classify(src@[k], low_cut(src@), high_cut(src@)),
        decreases n - j,
    {
        let v = src[j];
        if v < low {
            dst.push(0);
        } else if v >= high {
            dst.push(STRONG);
        } else {
            dst.push(WEAK);
        }
        j += 1;
    }
    proof {
        assert(dst@ =~= threshold_spec(src@));
        if forall|i2: int| 0 <= i2 < src@.len() ==> src@[i2] == 0 {
            lemma_seq_max_all_zero(src@);
        }
    }
    dst
}

} // verus!
