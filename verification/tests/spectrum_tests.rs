use num_complex::Complex32;
use rf_spectrum::peaks::detect_peak_indices;
use rf_spectrum::spectrum::{analyze_spectrum, bin_wraps, block_accepted};
use rustfft::FftPlanner;
use std::f32::consts::PI;

/// Map a finite power value to an order-preserving integer key, as the
/// boundary layer does before handing powers to the library.
fn power_key(x: f32) -> i64 {
    let x = if x == 0.0 { 0.0f32 } else { x };
    let b = x.to_bits();
    let k = if b & 0x8000_0000 != 0 { !b } else { b | 0x8000_0000 };
    k as i64
}

#[test]
fn short_block_is_rejected_softly() {
    assert!(!block_accepted(0, 8));
    assert!(!block_accepted(7, 8));
    assert!(block_accepted(8, 8));
    assert!(block_accepted(9, 8));
}

#[test]
fn negative_frequency_bins_start_past_midpoint() {
    assert!(!bin_wraps(0, 8));
    assert!(!bin_wraps(4, 8));
    assert!(bin_wraps(5, 8));
    assert!(bin_wraps(7, 8));
    assert!(!bin_wraps(3, 7));
    assert!(bin_wraps(4, 7));
}

#[test]
fn combined_analysis_reports_spans() {
    let powers: Vec<i64> = vec![0, 9, 0, 7, 0];
    let drop3: Vec<i64> = vec![-3, 6, -3, 4, -3];
    let spans = analyze_spectrum(&powers, &drop3, 1);
    assert_eq!(spans.len(), 2);
    assert_eq!((spans[0].index, spans[0].left, spans[0].right), (1, 0, 2));
    assert_eq!((spans[1].index, spans[1].left, spans[1].right), (3, 2, 4));
}

#[test]
fn combined_analysis_of_short_spectrum_is_empty() {
    assert!(analyze_spectrum(&vec![], &vec![], 0).is_empty());
    assert!(analyze_spectrum(&vec![5, 9], &vec![2, 6], 0).is_empty());
}

#[test]
fn power_key_preserves_order() {
    let samples: Vec<f32> = vec![-1000.5, -3.25, -0.0, 0.0, 0.125, 3.0, 999.75];
    for a in &samples {
        for b in &samples {
            assert_eq!(a > b, power_key(*a) > power_key(*b));
        }
    }
}

#[test]
fn dc_block_concentrates_power_in_bin_zero() {
    // A sample rate of one megahertz and a transform size of eight,
    // fed a block of eight pure-DC samples: all power gathers in bin
    // zero, whose mapped frequency is zero. Bin zero is a boundary
    // bin, so the interior-only peak scan reports nothing even with a
    // threshold that only bin zero exceeds.
    let fft_size: usize = 8;
    assert!(block_accepted(8, fft_size));
    let mut block: Vec<Complex32> = (0..fft_size).map(|_| Complex32::new(1.0, 0.0)).collect();
    for (k, sample) in block.iter_mut().enumerate() {
        let w = 0.5 * (1.0 - (2.0 * PI * k as f32 / (fft_size as f32 - 1.0)).cos());
        *sample = *sample * w;
    }
    let mut planner = FftPlanner::new();
    let fft = planner.plan_fft_forward(fft_size);
    fft.process(&mut block);
    let powers: Vec<f32> = block.iter().map(|c| 10.0 * c.norm().log10()).collect();
    let max_other = powers[1..].iter().cloned().fold(f32::NEG_INFINITY, f32::max);
    assert!(powers[0] > max_other);
    assert!(!bin_wraps(0, fft_size));
    let threshold = (powers[0] + max_other) / 2.0;
    let keys: Vec<i64> = powers.iter().map(|p| power_key(*p)).collect();
    let peaks = detect_peak_indices(&keys, power_key(threshold));
    assert!(peaks.is_empty());
}

#[test]
fn repeated_analysis_cycles_stay_stable() {
    // Run many analysis cycles over the same inputs: every cycle must
    // produce the same result and release it without trouble.
    let powers: Vec<i64> = vec![-40, -10, 5, -10, -40, -45];
    let drop3: Vec<i64> = vec![-43, -13, 2, -13, -43, -48];
    let buffer: Vec<u8> = vec![0x00, 0x47, 0x41, 0x4b, 0x41, 0xff];
    for _ in 0..10_000 {
        let spans = analyze_spectrum(&powers, &drop3, -20);
        assert_eq!(spans.len(), 1);
        assert_eq!((spans[0].index, spans[0].left, spans[0].right), (2, 1, 3));
        let v = first_vuln(&buffer);
        assert_eq!(v, Some(b'C'));
    }
}

fn first_vuln(buffer: &[u8]) -> Option<u8> {
    rf_spectrum::audit::first_aka_vulnerability(buffer).map(|v| v.severity)
}
