//! Spectrum-level decisions and the combined peak analysis.
//!
//! A computed spectrum pairs each transform bin with a frequency and a
//! power. The frequency mapping is `bin * sample_rate / fft_size`,
//! except that bins past the midpoint are remapped downward by one full
//! sample rate to represent negative frequencies; which bins wrap is an
//! integer decision made here. The peak analysis walks the power keys,
//! reports every strict local maximum above the caller's threshold, and
//! measures each one's half-power run.

use crate::bandwidth::{half_power_bounds, left_bound_ok, right_bound_ok};
use crate::peaks::is_peak;
use vstd::prelude::*;

verus! {

/// Whether frequency bin `bin` of a transform of `fft_size` bins is
/// remapped to a negative frequency: exactly the bins past the
/// midpoint `fft_size / 2` wrap. Bin zero therefore always keeps
/// frequency zero.
pub open spec fn bin_wrapped(bin: int, fft_size: int) -> bool {
    bin > fft_size / 2
}

/// Decide whether a frequency bin maps to a negative frequency.
pub fn bin_wraps(bin: usize, fft_size: usize) -> (r: bool)
    ensures
        r == bin_wrapped(bin as int, fft_size as int),
{
    bin > fft_size / 2
}

/// The zero-frequency bin never wraps; for an even transform size the
/// midpoint bin keeps a positive frequency and the bin just past it is
/// the first to map to a negative frequency.
pub proof fn lemma_wrap_boundaries(fft_size: int)
    requires
        2 <= fft_size,
        fft_size % 2 == 0,
    ensures
        !bin_wrapped(0, fft_size),
        !bin_wrapped(fft_size / 2, fft_size),
        bin_wrapped(fft_size / 2 + 1, fft_size),
{
}

/// True exactly when an input block is long enough to be processed: a
/// block shorter than the transform size is rejected softly, with an
/// empty result, never with an error.
pub fn block_accepted(input_len: usize, fft_size: usize) -> (r: bool)
    ensures
        r == (input_len >= fft_size),
{
    input_len >= fft_size
}

/// One detected peak, by position: the peak bin itself and the two
/// bins where its half-power run stops.
pub struct PeakSpan {
    /// Bin index of the peak.
    pub index: usize,
    /// Bin where the leftward half-power scan stopped.
    pub left: usize,
    /// Bin where the rightward half-power scan stopped.
    pub right: usize,
}

/// Detect every peak of a power spectrum and measure its half-power
/// run. `powers` holds the per-bin power keys; `drop3` holds, for each
/// bin, the key of that bin's power lowered by the half-power margin,
/// so the run around a peak `p` is bounded by `drop3[p]`. Peaks are
/// reported in ascending bin order; a spectrum of fewer than three
/// bins yields none.
pub fn analyze_spectrum(powers: &Vec<i64>, drop3: &Vec<i64>, threshold: i64) -> (r: Vec<
    PeakSpan,
>)
    requires
        drop3@.len() == powers@.len(),
    ensures
        forall|k: int|
            0 <= k < r@.len() ==> is_peak(powers@, threshold, (#[trigger] r@[k]).index as int),
        forall|k: int|
            0 <= k < r@.len() ==> left_bound_ok(
                powers@,
                (#[trigger] r@[k]).index as int,
                drop3@[r@[k].index as int],
                r@[k].left as int,
            ),
        forall|k: int|
            0 <= k < r@.len() ==> right_bound_ok(
                powers@,
                (#[trigger] r@[k]).index as int,
                drop3@[r@[k].index as int],
                r@[k].right as int,
            ),
        forall|i: int|
            #[trigger] is_peak(powers@, threshold, i) ==> exists|k: int|
                0 <= k < r@.len() && r@[k].index as int == i,
        forall|k1: int, k2: int| 0 <= k1 < k2 < r@.len() ==> r@[k1].index < r@[k2].index,
        powers@.len() < 3 ==> r@.len() == 0,
{
    let mut r: Vec<PeakSpan> = Vec::new();
    let n = powers.len();
    if n < 3 {
        return r;
    }
    let mut i: usize = 1;
    while i < n - 1
        invariant
            powers@.len() == n,
            drop3@.len() == n,
            3 <= n,
            1 <= i <= n - 1,
            forall|k: int|
                0 <= k < r@.len() ==> is_peak(powers@, threshold, (#[trigger] r@[k]).index as int),
            forall|k: int|
                0 <= k < r@.len() ==> left_bound_ok(
                    powers@,
                    (#[trigger] r@[k]).index as int,
                    drop3@[r@[k].index as int],
                    r@[k].left as int,
                ),
            forall|k: int|
                0 <= k < r@.len() ==> right_bound_ok(
                    powers@,
                    (#[trigger] r@[k]).index as int,
                    drop3@[r@[k].index as int],
                    r@[k].right as int,
                ),
            forall|k: int| 0 <= k < r@.len() ==> (#[trigger] r@[k]).index < i,
            forall|j: int|
                #[trigger] is_peak(powers@, threshold, j) && j < i ==> exists|k: int|
                    0 <= k < r@.len() && r@[k].index as int == j,
            forall|k1: int, k2: int| 0 <= k1 < k2 < r@.len() ==> r@[k1].index < r@[k2].index,
        decreases n - i,
    {
        let ghost prev = r@;
        let p = powers[i];
        let found = p > threshold && p > powers[i - 1] && p > powers[i + 1];
        if found {
            let bounds = half_power_bounds(powers, i, drop3[i]);
            r.push(PeakSpan { index: i, left: bounds.0, right: bounds.1 });
        }
        proof {
            assert forall|j: int|
                #[trigger] is_peak(powers@, threshold, j) && j < i + 1 implies exists|k: int|
                0 <= k < r@.len() && r@[k].index as int == j by {
                if j < i {
                    let k = choose|k: int| 0 <= k < prev.len() && prev[k].index as int == j;
                    assert(r@[k].index as int == j);
                } else {
                    assert(found);
                    assert(r@[r@.len() - 1].index as int == j);
                }
            }
        }
        i += 1;
    }
    r
}

} // verus!
