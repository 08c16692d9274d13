//! Spectral analysis of radio-frequency sample streams.
//!
//! The library holds the decision logic of a spectrum-analysis pipeline:
//! locating spectral peaks in a power spectrum, measuring each peak's
//! half-power run, the frequency-bin remapping and input-acceptance
//! decisions of the analyzer, and a byte-pattern auditor for captured
//! authentication traffic. Power values enter as order-preserving
//! integer keys, so every comparison the pipeline makes is verified;
//! the floating-point transform itself stays with the caller.

pub mod audit;
pub mod bandwidth;
pub mod peaks;
pub mod spectrum;
