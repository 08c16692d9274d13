//! Half-power bandwidth measurement around a detected peak.
//!
//! From a peak bin the estimator scans outward, in both directions,
//! while the power stays above the peak's half-power threshold. When
//! no crossing appears before a buffer edge, the scan saturates at the
//! edge: the width then reaches to that edge, by design, and no error
//! is raised.

use vstd::prelude::*;

verus! {

/// Where the leftward scan from bin `p` stops: the nearest bin at or
/// below `p` that sits at or below `threshold`, or bin zero when every
/// bin on the way is still above it.
pub open spec fn left_bound_ok(s: Seq<i64>, p: int, threshold: i64, l: int) -> bool {
    &&& 0 <= l <= p
    &&& l == 0 || s[l] <= threshold
    &&& forall|j: int| l < j <= p ==> s[j] > threshold
}

/// Where the rightward scan from bin `p` stops: the nearest bin at or
/// after `p` that sits at or below `threshold`, or the last bin when
/// every bin on the way is still above it.
pub open spec fn right_bound_ok(s: Seq<i64>, p: int, threshold: i64, r: int) -> bool {
    &&& p <= r < s.len()
    &&& r == s.len() - 1 || s[r] <= threshold
    &&& forall|j: int| p <= j < r ==> s[j] > threshold
}

/// Scan outward from `peak_index` in both directions while the power
/// stays strictly above `threshold`, and return the pair of stopping
/// indices `(left, right)`. The width of the half-power run is the
/// frequency span between these two bins.
pub fn half_power_bounds(powers: &Vec<i64>, peak_index: usize, threshold: i64) -> (b: (
    usize,
    usize,
))
    requires
        peak_index < powers@.len(),
    ensures
        left_bound_ok(powers@, peak_index as int, threshold, b.0 as int),
        right_bound_ok(powers@, peak_index as int, threshold, b.1 as int),
{
    let n = powers.len();
    let mut l = peak_index;
    while l > 0 && powers[l] > threshold
        invariant
            l <= peak_index < powers@.len(),
            forall|j: int| l < j <= peak_index ==> powers@[j] > threshold,
        decreases l,
    {
        l = l - 1;
    }
    let mut r = peak_index;
    while r < n - 1 && powers[r] > threshold
        invariant
            powers@.len() == n,
            peak_index <= r < n,
            forall|j: int| peak_index <= j < r ==> powers@[j] > threshold,
        decreases n - r,
    {
        r = r + 1;
    }
    (l, r)
}

/// Law: around a peak bin `p` whose power falls symmetrically on both
/// sides, with a bin at or below the scan threshold within distance
/// `d` on each side, the two stopping bins lie equally far from the
/// peak: the half-power run spans twice the distance from the peak to
/// the measured crossing.
pub proof fn lemma_symmetric_run_is_centered(
    s: Seq<i64>,
    p: int,
    threshold: i64,
    d: int,
    l: int,
    r: int,
)
    requires
        0 <= p < s.len(),
        1 <= d,
        0 <= p - d,
        p + d < s.len(),
        forall|j: int| 1 <= j <= d ==> s[p - j] == #[trigger] s[p + j],
        s[p + d] <= threshold,
        left_bound_ok(s, p, threshold, l),
        right_bound_ok(s, p, threshold, r),
    ensures
        r - p == p - l,
{
    if s[p] <= threshold {
        // Neither scan moves past a bin already at or below the threshold.
        if l < p {
            assert(s[p] > threshold);
        }
        if r > p {
            assert(s[p] > threshold);
        }
    } else {
        assert(s[p - d] == s[p + d]);
        // Both scans stop within the symmetric range: at distance `d`
        // the power is already at or below the threshold.
        if l < p - d {
            assert(s[p - d] > threshold);
        }
        if r > p + d {
            assert(s[p + d] > threshold);
        }
        // Each scan stopped on a value, not merely at an edge: an edge
        // inside the symmetric range coincides with distance `d`.
        assert(s[l] <= threshold) by {
            if l == 0 {
                assert(l == p - d);
            }
        }
        assert(s[r] <= threshold) by {
            if r == s.len() - 1 {
                assert(r == p + d);
            }
        }
        let dl = p - l;
        let dr = r - p;
        assert(1 <= dl <= d);
        assert(1 <= dr <= d);
        assert(s[p - dl] == s[p + dl]);
        assert(s[p - dr] == s[p + dr]);
        if dr < dl {
            assert(s[p - dr] > threshold);
            assert(false);
        }
        if dl < dr {
            assert(s[p + dl] > threshold);
            assert(false);
        }
    }
}

} // verus!
