//! Peak detection over a power spectrum.
//!
//! Power values arrive as order-preserving integer keys: comparing two
//! keys compares the powers they encode, which is all the detector ever
//! does with them.

use vstd::prelude::*;

verus! {

/// An interior bin is a peak when its power rises strictly above the
/// caller's threshold and strictly above both neighbouring bins.
/// The first and last bins are never peaks.
pub open spec fn is_peak(s: Seq<i64>, threshold: i64, i: int) -> bool {
    &&& 0 < i < s.len() - 1
    &&& s[i] > threshold
    &&& s[i] > s[i - 1]
    &&& s[i] > s[i + 1]
}

/// Scan a power spectrum for strict local maxima above `threshold` and
/// return their bin indices in ascending order. A spectrum of fewer
/// than three bins has no interior bin and yields no peak.
pub fn detect_peak_indices(powers: &Vec<i64>, threshold: i64) -> (r: Vec<usize>)
    ensures
        forall|k: int|
            0 <= k < r@.len() ==> is_peak(powers@, threshold, (#[trigger] r@[k]) as int),
        forall|i: int|
            #[trigger] is_peak(powers@, threshold, i) ==> exists|k: int|
                0 <= k < r@.len() && r@[k] as int == i,
        forall|k1: int, k2: int| 0 <= k1 < k2 < r@.len() ==> r@[k1] < r@[k2],
        powers@.len() < 3 ==> r@.len() == 0,
{
    let mut r: Vec<usize> = Vec::new();
    let n = powers.len();
    if n < 3 {
        return r;
    }
    let mut i: usize = 1;
    while i < n - 1
        invariant
            powers@.len() == n,
            3 <= n,
            1 <= i <= n - 1,
            forall|k: int|
                0 <= k < r@.len() ==> is_peak(powers@, threshold, (#[trigger] r@[k]) as int),
            forall|k: int| 0 <= k < r@.len() ==> (#[trigger] r@[k]) < i,
            forall|j: int|
                #[trigger] is_peak(powers@, threshold, j) && j < i ==> exists|k: int|
                    0 <= k < r@.len() && r@[k] as int == j,
            forall|k1: int, k2: int| 0 <= k1 < k2 < r@.len() ==> r@[k1] < r@[k2],
        decreases n - i,
    {
        let ghost prev = r@;
        let p = powers[i];
        let found = p > threshold && p > powers[i - 1] && p > powers[i + 1];
        if found {
            r.push(i);
        }
        proof {
            assert forall|j: int|
                #[trigger] is_peak(powers@, threshold, j) && j < i + 1 implies exists|k: int|
                0 <= k < r@.len() && r@[k] as int == j by {
                if j < i {
                    let k = choose|k: int| 0 <= k < prev.len() && prev[k] as int == j;
                    assert(r@[k] as int == j);
                } else {
                    assert(found);
                    assert(r@[r@.len() - 1] as int == j);
                }
            }
        }
        i += 1;
    }
    r
}

/// Law: when a spectrum rises strictly to a single summit `m` inside a
/// contiguous run `[a, b]` crossing the threshold, falls strictly after
/// it, and every bin outside the run stays at or below the threshold,
/// then any index sequence meeting the detector's contract reports
/// exactly the summit.
pub proof fn lemma_unimodal_run_single_peak(
    s: Seq<i64>,
    threshold: i64,
    a: int,
    m: int,
    b: int,
    r: Seq<usize>,
)
    requires
        0 <= a <= m <= b < s.len(),
        1 <= m <= s.len() - 2,
        s[m] > threshold,
        forall|i: int| a <= i < m ==> #[trigger] s[i] < s[i + 1],
        forall|i: int| m <= i < b ==> #[trigger] s[i] > s[i + 1],
        forall|i: int| (0 <= i < a || b < i < s.len()) ==> #[trigger] s[i] <= threshold,
        forall|k: int| 0 <= k < r.len() ==> is_peak(s, threshold, (#[trigger] r[k]) as int),
        forall|i: int|
            #[trigger] is_peak(s, threshold, i) ==> exists|k: int|
                0 <= k < r.len() && r[k] as int == i,
        forall|k1: int, k2: int| 0 <= k1 < k2 < r.len() ==> r[k1] < r[k2],
    ensures
        r.len() == 1,
        r[0] as int == m,
{
    assert(is_peak(s, threshold, m)) by {
        if m - 1 >= a {
            assert(s[m - 1] < s[m]);
        } else {
            assert(s[m - 1] <= threshold);
        }
        if m < b {
            assert(s[m] > s[m + 1]);
        } else {
            assert(s[m + 1] <= threshold);
        }
    }
    assert forall|i: int| #[trigger] is_peak(s, threshold, i) implies i == m by {
        if i < a || i > b {
            assert(s[i] <= threshold);
        } else if i < m {
            assert(s[i] < s[i + 1]);
        } else if i > m {
            assert(s[i - 1] > s[i]);
        }
    }
    let k0 = choose|k: int| 0 <= k < r.len() && r[k] as int == m;
    assert(0 <= k0 < r.len());
    if r.len() >= 2 {
        assert(is_peak(s, threshold, r[0] as int));
        assert(is_peak(s, threshold, r[1] as int));
        assert(r[0] < r[1]);
        assert(false);
    }
    assert(is_peak(s, threshold, r[0] as int));
}

} // verus!
