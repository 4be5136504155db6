//! Content addressing of findings: a fingerprint is the SHA-256 digest,
//! rendered as lower-case hex, of a canonical textual form built from the
//! stable fields alone — so a collision between distinct contents is
//! negligible by construction. The appended commit-context text
//! (`provenance`) is never part of it, so the same issue keeps the same
//! fingerprint from run to run.
use vstd::prelude::*;
use crate::finding::{Finding, FindingModel, kind_tag, kind_tag_str};

verus! {

/// The field separator of the canonical form: a control character that
/// scanner output does not contain.
pub open spec fn sep() -> Seq<char> {
    "\u{1f}"@
}

/// The license list of a finding, joined with commas.
pub open spec fn join_licenses(ls: Seq<Seq<char>>) -> Seq<char>
    decreases ls.len(),
{
    if ls.len() == 0 {
        Seq::empty()
    } else if ls.len() == 1 {
        ls[0]
    } else {
        join_licenses(ls.drop_last()) + ","@ + ls.last()
    }
}

/// The canonical textual form of a finding: every stable field in a fixed
/// order, separated by `sep()`. The `provenance` field does not appear.
pub open spec fn canonical_of(f: FindingModel) -> Seq<char> {
    kind_tag(f.kind) + sep() + f.identifier + sep() + f.path + sep() + f.line + sep() + f.manifest
        + sep() + f.severity + sep() + f.message + sep() + f.package + sep() + f.version + sep()
        + f.ecosystem + sep() + f.cwe + sep() + f.raw_value + sep() + f.detector + sep()
        + join_licenses(f.licenses)
}

/// The lower-case hex SHA-256 digest of a text: a function of the text
/// alone, in every process and on every machine.
pub uninterp spec fn sha256_hex_of(s: Seq<char>) -> Seq<char>;

/// Relies on sha2::Sha256 through its `Digest::digest` entry point: the
/// digest of the text's UTF-8 bytes depends on the text alone; the body
/// renders it as lower-case hex.
#[verifier::external_body]
fn sha256_hex(s: &str) -> (r: String)
    ensures
        r@ == sha256_hex_of(s@),
{
    let digest = <sha2::Sha256 as sha2::Digest>::digest(s.as_bytes());
    let mut out = String::new();
    for byte in digest {
        out.push_str(&format!("{:02x}", byte));
    }
    out
}

/// The fingerprint of a finding: the digest of its canonical form.
pub open spec fn spec_fingerprint(f: FindingModel) -> Seq<char> {
    sha256_hex_of(canonical_of(f))
}

/// Joins the license list with commas.
fn join_licenses_exec(ls: &Vec<String>) -> (r: String)
    ensures
        r@ == join_licenses(ls.deep_view()),
{
    let ghost model = ls.deep_view();
    let mut out = String::new();
    let n = ls.len();
    let mut i: usize = 0;
    while i < n
        invariant
            n == ls@.len(),
            model == ls.deep_view(),
            model.len() == n,
            i <= n,
            out@ == join_licenses(model.take(i as int)),
        decreases n - i,
    {
        if i > 0 {
            out.append(",");
        }
        out.append(ls[i].as_str());
        proof {
            assert(model.take(i + 1).drop_last() =~= model.take(i as int));
            assert(model.take(i + 1).last() == model[i as int]);
            assert(model[i as int] == ls@[i as int]@);
            if i == 0 {
                assert(model.take(1) =~= seq![model[0]]);
                assert(out@ =~= join_licenses(model.take(1)));
            } else {
                assert(out@ =~= join_licenses(model.take(i + 1)));
            }
        }
        i += 1;
    }
    proof {
        assert(model.take(n as int) =~= model);
    }
    out
}

/// Builds the canonical textual form of a finding.
pub fn canonical_form(f: &Finding) -> (r: String)
    ensures
        r@ == canonical_of(f@),
{
    let mut s = String::new();
    s.append(kind_tag_str(f.kind));
    s.append("\u{1f}");
    s.append(f.identifier.as_str());
    s.append("\u{1f}");
    s.append(f.path.as_str());
    s.append("\u{1f}");
    s.append(f.line.as_str());
    s.append("\u{1f}");
    s.append(f.manifest.as_str());
    s.append("\u{1f}");
    s.append(f.severity.as_str());
    s.append("\u{1f}");
    s.append(f.message.as_str());
    s.append("\u{1f}");
    s.append(f.package.as_str());
    s.append("\u{1f}");
    s.append(f.version.as_str());
    s.append("\u{1f}");
    s.append(f.ecosystem.as_str());
    s.append("\u{1f}");
    s.append(f.cwe.as_str());
    s.append("\u{1f}");
    s.append(f.raw_value.as_str());
    s.append("\u{1f}");
    s.append(f.detector.as_str());
    s.append("\u{1f}");
    let joined = join_licenses_exec(&f.licenses);
    s.append(joined.as_str());
    proof {
        assert(s@ =~= canonical_of(f@));
    }
    s
}

/// The fingerprint of a finding: the digest of its canonical form.
pub fn fingerprint(f: &Finding) -> (r: String)
    ensures
        r@ == spec_fingerprint(f@),
{
    let c = canonical_form(f);
    sha256_hex(c.as_str())
}

/// Whether two findings agree on every stable field; the `provenance`
/// text is allowed to differ.
pub open spec fn stable_eq(a: FindingModel, b: FindingModel) -> bool {
    &&& a.kind == b.kind
    &&& a.identifier == b.identifier
    &&& a.path == b.path
    &&& a.line == b.line
    &&& a.manifest == b.manifest
    &&& a.severity == b.severity
    &&& a.message == b.message
    &&& a.package == b.package
    &&& a.version == b.version
    &&& a.ecosystem == b.ecosystem
    &&& a.cwe == b.cwe
    &&& a.raw_value == b.raw_value
    &&& a.detector == b.detector
    &&& a.licenses == b.licenses
}

/// Fingerprint stability: findings with identical stable content carry the
/// identical fingerprint, whatever provenance text was appended to either.
pub proof fn lemma_fingerprint_ignores_provenance(a: FindingModel, b: FindingModel)
    requires
        stable_eq(a, b),
    ensures
        spec_fingerprint(a) == spec_fingerprint(b),
{
    assert(canonical_of(a) == canonical_of(b));
}

} // verus!
