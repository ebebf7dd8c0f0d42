//! Zero crossings: the sign changes between neighbouring samples, from which the
//! zero-crossing rate of a frame is computed.
use vstd::prelude::*;

verus! {

/// Whether two neighbouring samples lie on opposite sides of zero (zero counts as
/// non-negative, so a signal passing exactly through zero still crosses).
pub open spec fn crosses(a: i16, b: i16) -> bool {
    (a >= 0) != (b >= 0)
}

/// The number of sign changes among the first `n` samples.
pub open spec fn crossings_upto(s: Seq<i16>, n: int) -> nat
    decreases n,
{
    if n <= 1 {
        0
    } else {
        crossings_upto(s, n - 1) + if crosses(s[n - 2], s[n - 1]) {
            1nat
        } else {
            0nat
        }
    }
}

/// The number of sign changes in a frame.
pub open spec fn crossings(s: Seq<i16>) -> nat {
    crossings_upto(s, s.len() as int)
}

proof fn lemma_crossings_bound(s: Seq<i16>, n: int)
    requires
        n >= 1,
    ensures
        crossings_upto(s, n) <= n - 1,
    decreases n,
{
    if n > 1 {
        lemma_crossings_bound(s, n - 1);
    }
}

/// Count the sign changes between neighbouring samples.
pub fn count_zero_crossings(samples: &[i16]) -> (r: u32)
    requires
        samples@.len() <= u32::MAX,
    ensures
        r == crossings(samples@),
{
    if samples.len() < 2 {
        return 0;
    }
    let mut count: u32 = 0;
    let mut i: usize = 1;
    while i < samples.len()
        invariant
            1 <= i <= samples@.len(),
            samples@.len() <= u32::MAX,
            count == crossings_upto(samples@, i as int),
        decreases samples@.len() - i,
    {
        proof {
            lemma_crossings_bound(samples@, i as int);
        }
        if (samples[i - 1] >= 0) != (samples[i] >= 0) {
            count = count + 1;
        }
        i = i + 1;
    }
    count
}

} // verus!
