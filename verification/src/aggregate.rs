//! Tallying findings per severity slot and collecting the identifier sets
//! that containment rules match against.
use vstd::prelude::*;
use crate::finding::{Finding, FindingModel, SevKey, spec_classify_severity, classify_severity};
use crate::strutil::{spec_lower, to_lowercase, vec_contains_str};

verus! {

/// Per-severity tallies of one scan type's NEW findings.
#[derive(Clone, Copy, PartialEq, Eq, Structural, Debug)]
pub struct AggregateCounts {
    pub critical: u64,
    pub high: u64,
    pub medium: u64,
    pub low: u64,
    pub info: u64,
    pub warning: u64,
    pub error: u64,
}

impl AggregateCounts {
    /// The tally of one slot.
    pub open spec fn spec_get(self, k: SevKey) -> u64 {
        match k {
            SevKey::Critical => self.critical,
            SevKey::High => self.high,
            SevKey::Medium => self.medium,
            SevKey::Low => self.low,
            SevKey::Info => self.info,
            SevKey::Warning => self.warning,
            SevKey::Error => self.error,
        }
    }

    /// The tally of one slot.
    pub fn get(&self, k: SevKey) -> (r: u64)
        ensures
            r == self.spec_get(k),
    {
        match k {
            SevKey::Critical => self.critical,
            SevKey::High => self.high,
            SevKey::Medium => self.medium,
            SevKey::Low => self.low,
            SevKey::Info => self.info,
            SevKey::Warning => self.warning,
            SevKey::Error => self.error,
        }
    }

    /// All slots empty.
    pub fn zero() -> (r: AggregateCounts)
        ensures
            r == (AggregateCounts {
                critical: 0u64,
                high: 0u64,
                medium: 0u64,
                low: 0u64,
                info: 0u64,
                warning: 0u64,
                error: 0u64,
            }),
            forall|k: SevKey| r.spec_get(k) == 0,
    {
        AggregateCounts { critical: 0, high: 0, medium: 0, low: 0, info: 0, warning: 0, error: 0 }
    }
}

/// How many of `fs` fall into slot `k`.
pub open spec fn sev_count(fs: Seq<FindingModel>, k: SevKey) -> int
    decreases fs.len(),
{
    if fs.len() == 0 {
        0
    } else {
        sev_count(fs.drop_last(), k) + if spec_classify_severity(fs.last().severity) == Some(k) {
            1int
        } else {
            0
        }
    }
}

pub proof fn lemma_sev_count_bound(fs: Seq<FindingModel>, k: SevKey)
    ensures
        0 <= sev_count(fs, k) <= fs.len(),
    decreases fs.len(),
{
    if fs.len() > 0 {
        lemma_sev_count_bound(fs.drop_last(), k);
    }
}

/// The tallies of a run's findings, as a value.
pub open spec fn counts_of(fs: Seq<FindingModel>) -> AggregateCounts {
    AggregateCounts {
        critical: sev_count(fs, SevKey::Critical) as u64,
        high: sev_count(fs, SevKey::High) as u64,
        medium: sev_count(fs, SevKey::Medium) as u64,
        low: sev_count(fs, SevKey::Low) as u64,
        info: sev_count(fs, SevKey::Info) as u64,
        warning: sev_count(fs, SevKey::Warning) as u64,
        error: sev_count(fs, SevKey::Error) as u64,
    }
}

/// Tallies the findings of one scan type per severity slot; severities
/// outside the seven slots are tolerated and not counted.
pub fn aggregate_counts(findings: &Vec<Finding>) -> (r: AggregateCounts)
    ensures
        forall|k: SevKey| #[trigger] r.spec_get(k) as int == sev_count(findings.deep_view(), k),
        r == counts_of(findings.deep_view()),
{
    let ghost model = findings.deep_view();
    let n = findings.len();
    let mut r = AggregateCounts::zero();
    let mut i: usize = 0;
    proof {
        assert(model.take(0) =~= Seq::<FindingModel>::empty());
    }
    while i < n
        invariant
            model == findings.deep_view(),
            n == findings@.len(),
            model.len() == n,
            i <= n,
            r.critical as int == sev_count(model.take(i as int), SevKey::Critical),
            r.high as int == sev_count(model.take(i as int), SevKey::High),
            r.medium as int == sev_count(model.take(i as int), SevKey::Medium),
            r.low as int == sev_count(model.take(i as int), SevKey::Low),
            r.info as int == sev_count(model.take(i as int), SevKey::Info),
            r.warning as int == sev_count(model.take(i as int), SevKey::Warning),
            r.error as int == sev_count(model.take(i as int), SevKey::Error),
            r.critical <= i && r.high <= i && r.medium <= i && r.low <= i && r.info <= i
                && r.warning <= i && r.error <= i,
        decreases n - i,
    {
        let key = classify_severity(findings[i].severity.as_str());
        proof {
            assert(model.take(i + 1).drop_last() =~= model.take(i as int));
            assert(model.take(i + 1).last() == model[i as int]);
            assert(model[i as int] == findings@[i as int]@);
            assert forall|k: SevKey| #[trigger] sev_count(model.take(i + 1), k) == sev_count(
                model.take(i as int),
                k,
            ) + if spec_classify_severity(model[i as int].severity) == Some(k) {
                1int
            } else {
                0
            } by {}
        }
        match key {
            Some(SevKey::Critical) => {
                r.critical = r.critical + 1;
            },
            Some(SevKey::High) => {
                r.high = r.high + 1;
            },
            Some(SevKey::Medium) => {
                r.medium = r.medium + 1;
            },
            Some(SevKey::Low) => {
                r.low = r.low + 1;
            },
            Some(SevKey::Info) => {
                r.info = r.info + 1;
            },
            Some(SevKey::Warning) => {
                r.warning = r.warning + 1;
            },
            Some(SevKey::Error) => {
                r.error = r.error + 1;
            },
            None => {},
        }
        i += 1;
    }
    proof {
        assert(model.take(n as int) =~= model);
        assert forall|k: SevKey| #[trigger] r.spec_get(k) as int == sev_count(model, k) by {
            match k {
                SevKey::Critical => {},
                SevKey::High => {},
                SevKey::Medium => {},
                SevKey::Low => {},
                SevKey::Info => {},
                SevKey::Warning => {},
                SevKey::Error => {},
            }
        }
        lemma_sev_count_bound(model, SevKey::Critical);
        lemma_sev_count_bound(model, SevKey::High);
        lemma_sev_count_bound(model, SevKey::Medium);
        lemma_sev_count_bound(model, SevKey::Low);
        lemma_sev_count_bound(model, SevKey::Info);
        lemma_sev_count_bound(model, SevKey::Warning);
        lemma_sev_count_bound(model, SevKey::Error);
        assert(r == counts_of(model));
    }
    r
}

/// First-occurrence deduplication: keeps each string the first time it
/// appears.
pub open spec fn collect_unique(items: Seq<Seq<char>>) -> Seq<Seq<char>>
    decreases items.len(),
{
    if items.len() == 0 {
        Seq::empty()
    } else {
        let p = collect_unique(items.drop_last());
        if p.contains(items.last()) {
            p
        } else {
            p.push(items.last())
        }
    }
}

/// The `package@version` identifier of a finding.
pub open spec fn pkg_id(f: FindingModel) -> Seq<char> {
    f.package + "@"@ + f.version
}

/// The package identifiers of findings, in order.
pub open spec fn pkg_ids(fs: Seq<FindingModel>) -> Seq<Seq<char>>
    decreases fs.len(),
{
    if fs.len() == 0 {
        Seq::empty()
    } else {
        pkg_ids(fs.drop_last()).push(pkg_id(fs.last()))
    }
}

/// The unique `package@version` identifiers of one scan type's NEW
/// findings, in first-occurrence order.
pub open spec fn spec_packages(fs: Seq<FindingModel>) -> Seq<Seq<char>> {
    collect_unique(pkg_ids(fs))
}

/// Collects the unique `package@version` identifiers.
pub fn collect_packages(findings: &Vec<Finding>) -> (r: Vec<String>)
    ensures
        r.deep_view() == spec_packages(findings.deep_view()),
{
    let ghost model = findings.deep_view();
    let n = findings.len();
    let mut out: Vec<String> = Vec::new();
    let mut i: usize = 0;
    while i < n
        invariant
            model == findings.deep_view(),
            n == findings@.len(),
            model.len() == n,
            i <= n,
            out.deep_view() == collect_unique(pkg_ids(model.take(i as int))),
        decreases n - i,
    {
        let f = &findings[i];
        let mut id = f.package.clone();
        id.append("@");
        id.append(f.version.as_str());
        proof {
            assert(model.take(i + 1).drop_last() =~= model.take(i as int));
            assert(model.take(i + 1).last() == model[i as int]);
            assert(model[i as int] == findings@[i as int]@);
            assert(pkg_ids(model.take(i + 1)) == pkg_ids(model.take(i as int)).push(
                pkg_id(model[i as int]),
            ));
            assert(pkg_ids(model.take(i + 1)).drop_last() =~= pkg_ids(model.take(i as int)));
            assert(id@ == pkg_id(model[i as int]));
        }
        if !vec_contains_str(&out, id.as_str()) {
            out.push(id);
        }
        proof {
            assert(out.deep_view() =~= collect_unique(pkg_ids(model.take(i + 1))));
        }
        i += 1;
    }
    proof {
        assert(model.take(n as int) =~= model);
    }
    out
}

/// The detector names of findings, in order.
pub open spec fn detector_ids(fs: Seq<FindingModel>) -> Seq<Seq<char>>
    decreases fs.len(),
{
    if fs.len() == 0 {
        Seq::empty()
    } else {
        detector_ids(fs.drop_last()).push(fs.last().detector)
    }
}

/// The unique detector names of the secret scan's NEW findings, in
/// first-occurrence order.
pub open spec fn spec_detectors(fs: Seq<FindingModel>) -> Seq<Seq<char>> {
    collect_unique(detector_ids(fs))
}

/// Collects the unique detector names.
pub fn collect_detectors(findings: &Vec<Finding>) -> (r: Vec<String>)
    ensures
        r.deep_view() == spec_detectors(findings.deep_view()),
{
    let ghost model = findings.deep_view();
    let n = findings.len();
    let mut out: Vec<String> = Vec::new();
    let mut i: usize = 0;
    while i < n
        invariant
            model == findings.deep_view(),
            n == findings@.len(),
            model.len() == n,
            i <= n,
            out.deep_view() == collect_unique(detector_ids(model.take(i as int))),
        decreases n - i,
    {
        let f = &findings[i];
        let id = f.detector.clone();
        proof {
            assert(model.take(i + 1).drop_last() =~= model.take(i as int));
            assert(model.take(i + 1).last() == model[i as int]);
            assert(model[i as int] == findings@[i as int]@);
            assert(detector_ids(model.take(i + 1)) == detector_ids(model.take(i as int)).push(
                model[i as int].detector,
            ));
            assert(detector_ids(model.take(i + 1)).drop_last() =~= detector_ids(
                model.take(i as int),
            ));
        }
        if !vec_contains_str(&out, id.as_str()) {
            out.push(id);
        }
        proof {
            assert(out.deep_view() =~= collect_unique(detector_ids(model.take(i + 1))));
        }
        i += 1;
    }
    proof {
        assert(model.take(n as int) =~= model);
    }
    out
}

/// The lower-cased license strings of one finding, in order.
pub open spec fn lowered_list(ls: Seq<Seq<char>>) -> Seq<Seq<char>>
    decreases ls.len(),
{
    if ls.len() == 0 {
        Seq::empty()
    } else {
        lowered_list(ls.drop_last()).push(spec_lower(ls.last()))
    }
}

/// The lower-cased license strings of all findings, concatenated in
/// order.
pub open spec fn lowered_all(fs: Seq<FindingModel>) -> Seq<Seq<char>>
    decreases fs.len(),
{
    if fs.len() == 0 {
        Seq::empty()
    } else {
        lowered_all(fs.drop_last()) + lowered_list(fs.last().licenses)
    }
}

/// The unique lower-cased license strings of every license finding of the
/// run — all of them, not only the NEW ones.
pub open spec fn spec_licenses(fs: Seq<FindingModel>) -> Seq<Seq<char>> {
    collect_unique(lowered_all(fs))
}

/// Collects the unique lower-cased license strings of all findings.
pub fn collect_licenses(findings: &Vec<Finding>) -> (r: Vec<String>)
    ensures
        r.deep_view() == spec_licenses(findings.deep_view()),
{
    let ghost model = findings.deep_view();
    let n = findings.len();
    let mut out: Vec<String> = Vec::new();
    let mut i: usize = 0;
    while i < n
        invariant
            model == findings.deep_view(),
            n == findings@.len(),
            model.len() == n,
            i <= n,
            out.deep_view() == collect_unique(lowered_all(model.take(i as int))),
        decreases n - i,
    {
        let f = &findings[i];
        let ghost flm = model[i as int].licenses;
        let ln = f.licenses.len();
        let mut j: usize = 0;
        proof {
            assert(model[i as int] == findings@[i as int]@);
            assert(flm == f.licenses.deep_view());
            assert(lowered_list(flm.take(0)) =~= Seq::<Seq<char>>::empty());
            assert(lowered_all(model.take(i as int)) + lowered_list(flm.take(0)) =~= lowered_all(
                model.take(i as int),
            ));
        }
        while j < ln
            invariant
                model == findings.deep_view(),
                model.len() == n,
                n == findings@.len(),
                i < n,
                ln == f.licenses@.len(),
                flm == f.licenses.deep_view(),
                model[i as int] == findings@[i as int]@,
                flm == model[i as int].licenses,
                j <= ln,
                f == &findings[i as int],
                out.deep_view() == collect_unique(
                    lowered_all(model.take(i as int)) + lowered_list(flm.take(j as int)),
                ),
            decreases ln - j,
        {
            let low = to_lowercase(f.licenses[j].as_str());
            proof {
                assert(flm.take(j + 1).drop_last() =~= flm.take(j as int));
                assert(flm.take(j + 1).last() == flm[j as int]);
                assert(flm[j as int] == f.licenses@[j as int]@);
                assert(lowered_list(flm.take(j + 1)) == lowered_list(flm.take(j as int)).push(
                    spec_lower(flm[j as int]),
                ));
                assert(low@ == spec_lower(flm[j as int]));
                let a = lowered_all(model.take(i as int));
                assert(a + lowered_list(flm.take(j + 1)) =~= (a + lowered_list(
                    flm.take(j as int),
                )).push(spec_lower(flm[j as int])));
                assert((a + lowered_list(flm.take(j + 1))).drop_last() =~= a + lowered_list(
                    flm.take(j as int),
                ));
            }
            if !vec_contains_str(&out, low.as_str()) {
                out.push(low);
            }
            proof {
                let a = lowered_all(model.take(i as int));
                assert(out.deep_view() =~= collect_unique(a + lowered_list(flm.take(j + 1))));
            }
            j += 1;
        }
        proof {
            assert(flm.take(ln as int) =~= flm);
            assert(model.take(i + 1).drop_last() =~= model.take(i as int));
            assert(model.take(i + 1).last() == model[i as int]);
            assert(lowered_all(model.take(i + 1)) == lowered_all(model.take(i as int))
                + lowered_list(flm));
        }
        i += 1;
    }
    proof {
        assert(model.take(n as int) =~= model);
    }
    out
}

} // verus!
