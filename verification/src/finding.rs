//! The canonical record for a single issue reported by a scan, and the
//! severity vocabulary the policy gate counts by.
//!
//! Optional textual fields hold the empty string when the raw input had
//! nothing for them; `licenses` is only populated for license findings.
use vstd::prelude::*;

verus! {

/// The four kinds of scan whose results flow through the pipeline.
#[derive(Clone, Copy, PartialEq, Eq, Structural, Debug)]
pub enum ScanKind {
    Sast,
    Sca,
    Secret,
    License,
}

/// The key under which a scan's section stands in the results document,
/// also used as the stable tag of the kind.
pub open spec fn kind_tag(k: ScanKind) -> Seq<char> {
    match k {
        ScanKind::Sast => "sast"@,
        ScanKind::Sca => "sca"@,
        ScanKind::Secret => "secret"@,
        ScanKind::License => "license"@,
    }
}

/// The tag of a scan kind.
pub fn kind_tag_str(k: ScanKind) -> (r: &'static str)
    ensures
        r@ == kind_tag(k),
{
    match k {
        ScanKind::Sast => "sast",
        ScanKind::Sca => "sca",
        ScanKind::Secret => "secret",
        ScanKind::License => "license",
    }
}

/// One normalized issue.
pub struct Finding {
    pub kind: ScanKind,
    /// Rule id, detector name, or package name, by kind.
    pub identifier: String,
    pub path: String,
    /// The raw line text of the location; empty when absent.
    pub line: String,
    /// The manifest file the finding belongs to; empty outside Sca/License.
    pub manifest: String,
    /// Severity exactly as the scanner reported it (after the MODERATE
    /// normalization for Sca); empty when the kind carries none.
    pub severity: String,
    pub message: String,
    /// Commit-context text appended for reporting; never part of the
    /// fingerprint.
    pub provenance: String,
    pub package: String,
    pub version: String,
    pub ecosystem: String,
    /// First CWE id of an Sca finding; empty when the raw data has none.
    pub cwe: String,
    pub raw_value: String,
    pub detector: String,
    pub licenses: Vec<String>,
}

/// The mathematical content of a `Finding`.
pub ghost struct FindingModel {
    pub kind: ScanKind,
    pub identifier: Seq<char>,
    pub path: Seq<char>,
    pub line: Seq<char>,
    pub manifest: Seq<char>,
    pub severity: Seq<char>,
    pub message: Seq<char>,
    pub provenance: Seq<char>,
    pub package: Seq<char>,
    pub version: Seq<char>,
    pub ecosystem: Seq<char>,
    pub cwe: Seq<char>,
    pub raw_value: Seq<char>,
    pub detector: Seq<char>,
    pub licenses: Seq<Seq<char>>,
}

impl View for Finding {
    type V = FindingModel;

    open spec fn view(&self) -> FindingModel {
        FindingModel {
            kind: self.kind,
            identifier: self.identifier@,
            path: self.path@,
            line: self.line@,
            manifest: self.manifest@,
            severity: self.severity@,
            message: self.message@,
            provenance: self.provenance@,
            package: self.package@,
            version: self.version@,
            ecosystem: self.ecosystem@,
            cwe: self.cwe@,
            raw_value: self.raw_value@,
            detector: self.detector@,
            licenses: self.licenses.deep_view(),
        }
    }
}

impl DeepView for Finding {
    type V = FindingModel;

    open spec fn deep_view(&self) -> FindingModel {
        self.view()
    }
}

/// Copies a vector of strings.
pub fn clone_strings(v: &Vec<String>) -> (r: Vec<String>)
    ensures
        r@ == v@,
{
    let n = v.len();
    let mut r: Vec<String> = Vec::new();
    let mut i: usize = 0;
    while i < n
        invariant
            n == v@.len(),
            i <= n,
            r@ == v@.take(i as int),
        decreases n - i,
    {
        r.push(v[i].clone());
        proof {
            assert(v@.take(i + 1) =~= v@.take(i as int).push(v@[i as int]));
        }
        i += 1;
    }
    proof {
        assert(v@.take(n as int) =~= v@);
    }
    r
}

impl Finding {
    /// Copies a finding, field by field.
    pub fn duplicate(&self) -> (r: Finding)
        ensures
            r@ == self@,
    {
        Finding {
            kind: self.kind,
            identifier: self.identifier.clone(),
            path: self.path.clone(),
            line: self.line.clone(),
            manifest: self.manifest.clone(),
            severity: self.severity.clone(),
            message: self.message.clone(),
            provenance: self.provenance.clone(),
            package: self.package.clone(),
            version: self.version.clone(),
            ecosystem: self.ecosystem.clone(),
            cwe: self.cwe.clone(),
            raw_value: self.raw_value.clone(),
            detector: self.detector.clone(),
            licenses: clone_strings(&self.licenses),
        }
    }
}

/// The severity slots the policy gate tallies; any other severity is
/// tolerated but not counted.
#[derive(Clone, Copy, PartialEq, Eq, Structural, Debug)]
pub enum SevKey {
    Critical,
    High,
    Medium,
    Low,
    Info,
    Warning,
    Error,
}

/// The counting slot for an already lower-cased severity text.
pub open spec fn sev_key_of(s: Seq<char>) -> Option<SevKey> {
    if s == "critical"@ {
        Some(SevKey::Critical)
    } else if s == "high"@ {
        Some(SevKey::High)
    } else if s == "medium"@ {
        Some(SevKey::Medium)
    } else if s == "low"@ {
        Some(SevKey::Low)
    } else if s == "info"@ {
        Some(SevKey::Info)
    } else if s == "warning"@ {
        Some(SevKey::Warning)
    } else if s == "error"@ {
        Some(SevKey::Error)
    } else {
        None
    }
}

/// The counting slot of a severity as a scanner reported it: matching is
/// case-insensitive.
pub open spec fn spec_classify_severity(s: Seq<char>) -> Option<SevKey> {
    sev_key_of(crate::strutil::spec_lower(s))
}

/// Classifies a reported severity into its counting slot.
pub fn classify_severity(s: &str) -> (r: Option<SevKey>)
    ensures
        r == spec_classify_severity(s@),
{
    let lower = crate::strutil::to_lowercase(s);
    let l = lower.as_str();
    if crate::strutil::str_eq(l, "critical") {
        Some(SevKey::Critical)
    } else if crate::strutil::str_eq(l, "high") {
        Some(SevKey::High)
    } else if crate::strutil::str_eq(l, "medium") {
        Some(SevKey::Medium)
    } else if crate::strutil::str_eq(l, "low") {
        Some(SevKey::Low)
    } else if crate::strutil::str_eq(l, "info") {
        Some(SevKey::Info)
    } else if crate::strutil::str_eq(l, "warning") {
        Some(SevKey::Warning)
    } else if crate::strutil::str_eq(l, "error") {
        Some(SevKey::Error)
    } else {
        None
    }
}

} // verus!
