//! Byte-pattern audit of captured 5G-AKA authentication traffic.
//!
//! Each detector is an independent presence check over the raw bytes of
//! a captured buffer; the audit reports the first issue found, in a
//! fixed detector order, or nothing.

use vstd::prelude::*;

verus! {

/// One detected issue: a severity letter, a human-readable description,
/// the identifier of the matching advisory, and a detection confidence
/// expressed in hundredths.
pub struct CryptoVulnerability {
    /// Severity code, an ASCII letter: `C` critical, `H` high.
    pub severity: u8,
    /// Human-readable description of the issue.
    pub description: &'static str,
    /// Identifier of the matching advisory.
    pub cve: &'static str,
    /// Detection confidence, in hundredths of certainty.
    pub confidence_centi: u8,
}

/// The four-byte marker `GAKA` (the ASCII tail of a 5G-AKA message
/// tag) starts at offset `i` of the buffer.
pub open spec fn marker_at(data: Seq<u8>, i: int) -> bool {
    &&& 0 <= i
    &&& i + 4 <= data.len()
    &&& data[i] == 0x47u8
    &&& data[i + 1] == 0x41u8
    &&& data[i + 2] == 0x4bu8
    &&& data[i + 3] == 0x41u8
}

/// The buffer carries the identity-mapping marker somewhere.
pub open spec fn has_identity_mapping_marker(data: Seq<u8>) -> bool {
    exists|i: int| marker_at(data, i)
}

/// The buffer holds both an all-zero byte and an all-one byte, the
/// signature of a weak or predictable key.
pub open spec fn has_weak_key_bytes(data: Seq<u8>) -> bool {
    data.contains(0x00u8) && data.contains(0xffu8)
}

/// Scan the buffer for the identity-mapping attack marker.
pub fn detect_identity_mapping_attack(data: &[u8]) -> (r: bool)
    ensures
        r == has_identity_mapping_marker(data@),
{
    let n = data.len();
    if n < 4 {
        return false;
    }
    let mut i: usize = 0;
    while i <= n - 4
        invariant
            n == data@.len(),
            4 <= n,
            i <= n - 3,
            forall|j: int| 0 <= j < i ==> !marker_at(data@, j),
        decreases n - i,
    {
        if data[i] == 0x47 && data[i + 1] == 0x41 && data[i + 2] == 0x4b && data[i + 3] == 0x41 {
            assert(marker_at(data@, i as int));
            return true;
        }
        i += 1;
    }
    false
}

/// Scan the buffer for the two byte values that mark weak key usage.
pub fn detect_weak_key_usage(data: &[u8]) -> (r: bool)
    ensures
        r == has_weak_key_bytes(data@),
{
    let mut has_zero = false;
    let mut has_ff = false;
    let n = data.len();
    let mut i: usize = 0;
    while i < n
        invariant
            n == data@.len(),
            i <= n,
            has_zero == exists|j: int| 0 <= j < i && data@[j] == 0x00u8,
            has_ff == exists|j: int| 0 <= j < i && data@[j] == 0xffu8,
        decreases n - i,
    {
        let b = data[i];
        if b == 0x00 {
            has_zero = true;
        }
        if b == 0xff {
            has_ff = true;
        }
        i += 1;
    }
    has_zero && has_ff
}

/// The issue reported for the identity-mapping attack marker.
pub open spec fn is_identity_mapping_vuln(v: CryptoVulnerability) -> bool {
    &&& v.severity == 0x43u8
    &&& v.description@ == "Identity mapping attack detected in 5G-AKA"@
    &&& v.cve@ == "CVE-2021-45456"@
    &&& v.confidence_centi == 85u8
}

/// The issue reported for weak key usage.
pub open spec fn is_weak_key_vuln(v: CryptoVulnerability) -> bool {
    &&& v.severity == 0x48u8
    &&& v.description@ == "Weak cryptographic key usage detected"@
    &&& v.cve@ == "CVE-2022-37892"@
    &&& v.confidence_centi == 90u8
}

/// Run every detector over the buffer and collect the issues found, in
/// detector order: the identity-mapping attack first, weak key usage
/// second.
pub fn detect_aka_vulnerabilities(data: &[u8]) -> (r: Vec<CryptoVulnerability>)
    ensures
        r@.len() == (if has_identity_mapping_marker(data@) {
            1int
        } else {
            0int
        }) + (if has_weak_key_bytes(data@) {
            1int
        } else {
            0int
        }),
        has_identity_mapping_marker(data@) ==> is_identity_mapping_vuln(r@[0]),
        has_weak_key_bytes(data@) ==> is_weak_key_vuln(r@[r@.len() - 1]),
{
    let mut vulnerabilities: Vec<CryptoVulnerability> = Vec::new();
    if detect_identity_mapping_attack(data) {
        vulnerabilities.push(
            CryptoVulnerability {
                severity: 0x43,
                description: "Identity mapping attack detected in 5G-AKA",
                cve: "CVE-2021-45456",
                confidence_centi: 85,
            },
        );
    }
    if detect_weak_key_usage(data) {
        vulnerabilities.push(
            CryptoVulnerability {
                severity: 0x48,
                description: "Weak cryptographic key usage detected",
                cve: "CVE-2022-37892",
                confidence_centi: 90,
            },
        );
    }
    vulnerabilities
}

/// Audit a captured buffer and return the first issue found, or
/// nothing: nothing on an empty buffer, and nothing when no detector
/// matches.
pub fn first_aka_vulnerability(data: &[u8]) -> (r: Option<CryptoVulnerability>)
    ensures
        data@.len() == 0 ==> r is None,
        !has_identity_mapping_marker(data@) && !has_weak_key_bytes(data@) ==> r is None,
        has_identity_mapping_marker(data@) ==> (r matches Some(v) && is_identity_mapping_vuln(v)),
        !has_identity_mapping_marker(data@) && has_weak_key_bytes(data@) ==> (r matches Some(v)
            && is_weak_key_vuln(v)),
{
    let mut vulnerabilities = detect_aka_vulnerabilities(data);
    if vulnerabilities.len() > 0 {
        let v = vulnerabilities.remove(0);
        Some(v)
    } else {
        None
    }
}

} // verus!
