//! One pipeline run over a results document: normalize each enabled
//! section, keep the NEW findings against the ledger, tally and collect,
//! evaluate the policy, and build the report.
use vstd::prelude::*;
use crate::aggregate::{
    AggregateCounts, aggregate_counts, collect_detectors, collect_licenses, collect_packages,
    counts_of, spec_detectors, spec_licenses, spec_packages,
};
use crate::dedup::{
    DedupStore, dedup_filter, fingerprints, fps_of, lemma_new_distinct, lemma_new_fresh, seq_set,
    spec_new_findings,
};
use crate::error::PipelineError;
use crate::finding::{Finding, FindingModel, ScanKind, kind_tag, kind_tag_str};
use crate::fingerprint::spec_fingerprint;
use crate::json::JsonValue;
use crate::normalize::{
    norm_license, norm_sca, normalize_license, normalize_sast, normalize_sca, normalize_secret,
    sast_list, secret_list,
};
use crate::policy::{
    ExitClass, GateInputs, GateInputsModel, GateModel, GateResult, PolicyDoc, PolicyModel,
    evaluate_policy, spec_class_code, spec_evaluate,
};
use crate::report::{Report, ReportEntryModel, build_report, lemma_report_len, no_attributions,
    null_attrs, spec_report};

verus! {

/// Which scan types this invocation ran.
#[derive(Clone, Copy, PartialEq, Eq, Structural, Debug)]
pub struct RunConfig {
    pub sast: bool,
    pub sca: bool,
    pub secret: bool,
    pub license: bool,
}

/// What one scan type's section of the results document maps to; nothing
/// when its shape is wrong.
pub open spec fn norm_section(k: ScanKind, s: JsonValue) -> Option<Seq<FindingModel>> {
    match k {
        ScanKind::Sast => if s is Arr {
            Some(sast_list(s->Arr_0@))
        } else {
            None
        },
        ScanKind::Sca => norm_sca(s),
        ScanKind::Secret => match s.spec_get("results"@) {
            Some(JsonValue::Arr(items)) => Some(secret_list(items@)),
            _ => None,
        },
        ScanKind::License => norm_license(s),
    }
}

/// The findings one scan type contributes: none when it did not run or
/// its section is absent (the scanner never ran — a no-op), its
/// normalization otherwise.
pub open spec fn section_findings(doc: JsonValue, k: ScanKind, enabled: bool) -> Option<
    Seq<FindingModel>,
> {
    if !enabled {
        Some(Seq::empty())
    } else {
        match doc.spec_get(kind_tag(k)) {
            None => Some(Seq::empty()),
            Some(s) => norm_section(k, s),
        }
    }
}

/// The findings of the whole run, in the fixed order sast, sca, secret,
/// license.
pub open spec fn all_findings(doc: JsonValue, cfg: RunConfig) -> Option<Seq<FindingModel>> {
    match (
        section_findings(doc, ScanKind::Sast, cfg.sast),
        section_findings(doc, ScanKind::Sca, cfg.sca),
        section_findings(doc, ScanKind::Secret, cfg.secret),
        section_findings(doc, ScanKind::License, cfg.license),
    ) {
        (Some(a), Some(b), Some(c), Some(d)) => Some(a + b + c + d),
        _ => None,
    }
}

/// Normalizes one scan type's section.
fn normalize_section(doc: &JsonValue, k: ScanKind, enabled: bool) -> (r: Result<
    Vec<Finding>,
    PipelineError,
>)
    ensures
        match section_findings(*doc, k, enabled) {
            Some(fs) => (r matches Ok(v) && v.deep_view() == fs),
            None => r == Err::<Vec<Finding>, PipelineError>(PipelineError::MalformedInput),
        },
{
    if !enabled {
        let v: Vec<Finding> = Vec::new();
        proof {
            assert(v.deep_view() =~= Seq::<FindingModel>::empty());
        }
        return Ok(v);
    }
    let section = match doc.get(kind_tag_str(k)) {
        Some(s) => s,
        None => {
            let v: Vec<Finding> = Vec::new();
            proof {
                assert(v.deep_view() =~= Seq::<FindingModel>::empty());
            }
            return Ok(v);
        },
    };
    match k {
        ScanKind::Sast => normalize_sast(section),
        ScanKind::Sca => normalize_sca(section),
        ScanKind::Secret => normalize_secret(section),
        ScanKind::License => normalize_license(section),
    }
}

/// The findings of one kind, in order.
pub open spec fn filter_kind(fs: Seq<FindingModel>, k: ScanKind) -> Seq<FindingModel>
    decreases fs.len(),
{
    if fs.len() == 0 {
        Seq::empty()
    } else {
        let p = filter_kind(fs.drop_last(), k);
        if fs.last().kind == k {
            p.push(fs.last())
        } else {
            p
        }
    }
}

/// Keeps the findings of one kind.
fn split_kind(v: &Vec<Finding>, k: ScanKind) -> (r: Vec<Finding>)
    ensures
        r.deep_view() == filter_kind(v.deep_view(), k),
{
    let ghost model = v.deep_view();
    let n = v.len();
    let mut r: Vec<Finding> = Vec::new();
    let mut i: usize = 0;
    while i < n
        invariant
            model == v.deep_view(),
            n == v@.len(),
            model.len() == n,
            i <= n,
            r.deep_view() == filter_kind(model.take(i as int), k),
        decreases n - i,
    {
        proof {
            assert(model.take(i + 1).drop_last() =~= model.take(i as int));
            assert(model.take(i + 1).last() == model[i as int]);
            assert(model[i as int] == v@[i as int]@);
        }
        if v[i].kind == k {
            let copy = v[i].duplicate();
            r.push(copy);
            proof {
                assert(r.deep_view() =~= filter_kind(model.take(i + 1), k));
            }
        } else {
            proof {
                assert(r.deep_view() =~= filter_kind(model.take(i + 1), k));
            }
        }
        i += 1;
    }
    proof {
        assert(model.take(n as int) =~= model);
    }
    r
}

/// What policy evaluation consumes: tallies and collections of the enabled scan
/// types over the NEW findings — except the license collection, which
/// deliberately covers every license finding of the run, seen before or
/// not.
pub open spec fn spec_gate_inputs(
    doc: JsonValue,
    cfg: RunConfig,
    new: Seq<FindingModel>,
) -> GateInputsModel {
    GateInputsModel {
        sast: if cfg.sast {
            Some(counts_of(filter_kind(new, ScanKind::Sast)))
        } else {
            None
        },
        sca: if cfg.sca {
            Some(counts_of(filter_kind(new, ScanKind::Sca)))
        } else {
            None
        },
        packages: if cfg.sca {
            Some(spec_packages(filter_kind(new, ScanKind::Sca)))
        } else {
            None
        },
        detectors: if cfg.secret {
            Some(spec_detectors(filter_kind(new, ScanKind::Secret)))
        } else {
            None
        },
        licenses: if cfg.license {
            Some(
                spec_licenses(
                    match section_findings(doc, ScanKind::License, cfg.license) {
                        Some(fs) => fs,
                        None => Seq::empty(),
                    },
                ),
            )
        } else {
            None
        },
    }
}

/// The verdict before any rule matched.
pub open spec fn passing_gate() -> GateModel {
    GateModel { failed: false, reason: Seq::empty(), exit_class: ExitClass::Passed }
}

/// The policy model behind an optional policy reference.
pub open spec fn policy_model(p: Option<&PolicyDoc>) -> Option<PolicyModel> {
    match p {
        Some(x) => Some(x@),
        None => None,
    }
}

/// Everything one run produces.
pub struct PipelineOutcome {
    /// The verdict of the policy gate.
    pub gate: GateResult,
    /// 0 on pass or without a policy; the failing scan type's code
    /// otherwise.
    pub exit_code: i32,
    /// The NEW findings of the run, in the fixed scan-type order.
    pub new_findings: Vec<Finding>,
    /// What policy evaluation consumed.
    pub inputs: GateInputs,
    /// The report over the NEW findings, not yet attributed.
    pub report: Report,
}

/// The mathematical content of a `PipelineOutcome`.
pub ghost struct PipelineModel {
    pub gate: GateModel,
    pub exit_code: i32,
    pub new_findings: Seq<FindingModel>,
    pub inputs: GateInputsModel,
    pub report: Seq<ReportEntryModel>,
}

impl View for PipelineOutcome {
    type V = PipelineModel;

    open spec fn view(&self) -> PipelineModel {
        PipelineModel {
            gate: self.gate@,
            exit_code: self.exit_code,
            new_findings: self.new_findings.deep_view(),
            inputs: self.inputs@,
            report: self.report@,
        }
    }
}

/// What a run of the pipeline produces on a document, policy and store;
/// nothing when an enabled section is malformed.
pub open spec fn spec_pipeline(
    doc: JsonValue,
    policy: Option<PolicyModel>,
    cfg: RunConfig,
    store: Set<Seq<char>>,
) -> Option<PipelineModel> {
    match all_findings(doc, cfg) {
        None => None,
        Some(all) => {
            let new = spec_new_findings(all, store);
            let inputs = spec_gate_inputs(doc, cfg, new);
            let gate = match policy {
                Some(p) => spec_evaluate(p, inputs),
                None => passing_gate(),
            };
            Some(
                PipelineModel {
                    gate,
                    exit_code: if gate.failed {
                        spec_class_code(gate.exit_class)
                    } else {
                        0
                    },
                    new_findings: new,
                    inputs,
                    report: spec_report(new, null_attrs(new.len())),
                },
            )
        },
    }
}

/// Runs the policy-gated pipeline over one results document.
///
/// Normalizes every enabled section (an absent section is a no-op, a
/// malformed one stops the run before the ledger is touched), keeps the
/// findings the ledger does not know, registers their fingerprints,
/// tallies and collects, evaluates the policy — no policy, no failure —
/// and builds the unattributed report of the NEW findings.
pub fn pipeline_failure(
    doc: &JsonValue,
    policy: Option<&PolicyDoc>,
    cfg: RunConfig,
    store: &mut DedupStore,
) -> (r: Result<PipelineOutcome, PipelineError>)
    ensures
        match spec_pipeline(*doc, policy_model(policy), cfg, old(store)@) {
            Some(m) => (r matches Ok(out) && out@ == m && final(store)@ == old(store)@.union(
                seq_set(fps_of(m.new_findings)),
            )),
            None => r == Err::<PipelineOutcome, PipelineError>(PipelineError::MalformedInput)
                && final(store)@ == old(store)@,
        },
{
    let sast_all = match normalize_section(doc, ScanKind::Sast, cfg.sast) {
        Ok(v) => v,
        Err(e) => {
            return Err(e);
        },
    };
    let sca_all = match normalize_section(doc, ScanKind::Sca, cfg.sca) {
        Ok(v) => v,
        Err(e) => {
            return Err(e);
        },
    };
    let secret_all = match normalize_section(doc, ScanKind::Secret, cfg.secret) {
        Ok(v) => v,
        Err(e) => {
            return Err(e);
        },
    };
    let license_all = match normalize_section(doc, ScanKind::License, cfg.license) {
        Ok(v) => v,
        Err(e) => {
            return Err(e);
        },
    };
    let ghost am = sast_all.deep_view();
    let ghost bm = sca_all.deep_view();
    let ghost cm = secret_all.deep_view();
    let ghost dm = license_all.deep_view();
    let licenses_collected = if cfg.license {
        Some(collect_licenses(&license_all))
    } else {
        None
    };
    let mut all: Vec<Finding> = sast_all;
    let mut sca_all = sca_all;
    let mut secret_all = secret_all;
    let mut license_all = license_all;
    all.append(&mut sca_all);
    all.append(&mut secret_all);
    all.append(&mut license_all);
    proof {
        assert(all.deep_view() =~= am + bm + cm + dm);
        assert(all_findings(*doc, cfg) == Some(all.deep_view()));
    }
    let ghost allm = all.deep_view();
    let new = dedup_filter(&all, store);
    let fps = fingerprints(&new);
    store.register_all(&fps);
    let ghost newm = new.deep_view();
    let new_sast = split_kind(&new, ScanKind::Sast);
    let new_sca = split_kind(&new, ScanKind::Sca);
    let new_secret = split_kind(&new, ScanKind::Secret);
    let inputs = GateInputs {
        sast: if cfg.sast {
            Some(aggregate_counts(&new_sast))
        } else {
            None
        },
        sca: if cfg.sca {
            Some(aggregate_counts(&new_sca))
        } else {
            None
        },
        packages: if cfg.sca {
            Some(collect_packages(&new_sca))
        } else {
            None
        },
        detectors: if cfg.secret {
            Some(collect_detectors(&new_secret))
        } else {
            None
        },
        licenses: licenses_collected,
    };
    proof {
        assert(inputs@ == spec_gate_inputs(*doc, cfg, newm));
    }
    let gate = match policy {
        Some(p) => evaluate_policy(p, &inputs),
        None => GateResult::passing(),
    };
    let exit_code = gate.exit_code();
    let attrs = no_attributions(new.len());
    let report = build_report(&new, &attrs);
    let out = PipelineOutcome { gate, exit_code, new_findings: new, inputs, report };
    proof {
        let m = spec_pipeline(*doc, policy_model(policy), cfg, old(store)@).unwrap();
        assert(out@.new_findings == m.new_findings);
        assert(out@.inputs == m.inputs);
        assert(out@.gate == m.gate);
        assert(out@.exit_code == m.exit_code);
        assert(out@.report == m.report);
        assert(out@ == m);
    }
    Ok(out)
}

/// What a policy text parses and maps to: nothing when it is not YAML or
/// not a well-formed policy.
pub open spec fn spec_policy_of_text(t: Seq<char>) -> Option<PolicyModel> {
    match crate::json::spec_yaml_doc(t) {
        Some(d) => crate::policy::spec_parse_policy(d),
        None => None,
    }
}

/// Runs the policy-gated pipeline from raw texts: the results document as JSON, the
/// policy — when one was supplied — as YAML. A results text that does
/// not parse is malformed input; a policy text that does not parse or
/// has the wrong shape is a policy-source error; both stop the run
/// before the ledger is touched.
pub fn gate_from_text(
    doc_text: &str,
    policy_text: Option<&str>,
    cfg: RunConfig,
    store: &mut DedupStore,
) -> (r: Result<PipelineOutcome, PipelineError>)
    ensures
        crate::json::spec_json_doc(doc_text@) is None ==> (r == Err::<
            PipelineOutcome,
            PipelineError,
        >(PipelineError::MalformedInput) && final(store)@ == old(store)@),
        (crate::json::spec_json_doc(doc_text@) is Some && (policy_text matches Some(pt)
            && spec_policy_of_text(pt@) is None)) ==> (r == Err::<PipelineOutcome, PipelineError>(
            PipelineError::PolicySource,
        ) && final(store)@ == old(store)@),
        (crate::json::spec_json_doc(doc_text@) is Some && (policy_text is None || (policy_text
            matches Some(pt) && spec_policy_of_text(pt@) is Some))) ==> ({
            let doc = crate::json::spec_json_doc(doc_text@).unwrap();
            let pol = match policy_text {
                Some(pt2) => Some(spec_policy_of_text(pt2@).unwrap()),
                None => None,
            };
            match spec_pipeline(doc, pol, cfg, old(store)@) {
                Some(m) => (r matches Ok(out) && out@ == m && final(store)@ == old(
                    store,
                )@.union(seq_set(fps_of(m.new_findings)))),
                None => r == Err::<PipelineOutcome, PipelineError>(PipelineError::MalformedInput)
                    && final(store)@ == old(store)@,
            }
        }),
{
    let doc = match crate::json::json_from_text(doc_text) {
        Some(d) => d,
        None => {
            return Err(PipelineError::MalformedInput);
        },
    };
    let policy = match policy_text {
        Some(pt) => {
            let pd = match crate::json::yaml_from_text(pt) {
                Some(d) => d,
                None => {
                    return Err(PipelineError::PolicySource);
                },
            };
            match crate::policy::parse_policy(&pd) {
                Ok(p) => Some(p),
                Err(e) => {
                    return Err(e);
                },
            }
        },
        None => None,
    };
    match &policy {
        Some(p) => pipeline_failure(&doc, Some(p), cfg, store),
        None => pipeline_failure(&doc, None, cfg, store),
    }
}

/// The URL the policy document is fetched from, with a cache-busting
/// query parameter appended.
pub open spec fn spec_cache_busted(url: Seq<char>, tag: Seq<char>) -> Seq<char> {
    url + (if crate::strutil::spec_contains_sub(url, "?"@) {
        "&cb="@
    } else {
        "?cb="@
    }) + tag
}

/// Appends a cache-busting query parameter to a policy URL.
pub fn cache_busted_url(url: &str, tag: &str) -> (r: String)
    ensures
        r@ == spec_cache_busted(url@, tag@),
{
    let mut s = String::from_str(url);
    if crate::strutil::contains_sub(url, "?") {
        s.append("&cb=");
    } else {
        s.append("?cb=");
    }
    s.append(tag);
    s
}

/// License aggregation ignores deduplication: whatever the ledger holds,
/// two runs over the same document collect the same license set — a
/// license seen in an earlier run still reaches the containment check.
pub proof fn lemma_license_collection_ignores_dedup(
    doc: JsonValue,
    policy: Option<PolicyModel>,
    cfg: RunConfig,
    s1: Set<Seq<char>>,
    s2: Set<Seq<char>>,
)
    requires
        spec_pipeline(doc, policy, cfg, s1) is Some,
        spec_pipeline(doc, policy, cfg, s2) is Some,
    ensures
        spec_pipeline(doc, policy, cfg, s1).unwrap().inputs.licenses == spec_pipeline(
            doc,
            policy,
            cfg,
            s2,
        ).unwrap().inputs.licenses,
{
}

/// Report completeness: the report has exactly one entry per NEW
/// finding; no two NEW findings share a fingerprint, and none carries a
/// fingerprint the ledger already knew.
pub proof fn lemma_report_completeness(
    doc: JsonValue,
    policy: Option<PolicyModel>,
    cfg: RunConfig,
    store: Set<Seq<char>>,
)
    requires
        spec_pipeline(doc, policy, cfg, store) is Some,
    ensures
        spec_pipeline(doc, policy, cfg, store).unwrap().report.len() == spec_pipeline(
            doc,
            policy,
            cfg,
            store,
        ).unwrap().new_findings.len(),
        forall|i: int|
            0 <= i < spec_pipeline(doc, policy, cfg, store).unwrap().new_findings.len()
                ==> !store.contains(
                #[trigger] spec_fingerprint(
                    spec_pipeline(doc, policy, cfg, store).unwrap().new_findings[i],
                ),
            ),
        forall|i: int, j: int|
            0 <= i < j < spec_pipeline(doc, policy, cfg, store).unwrap().new_findings.len()
                ==> spec_fingerprint(
                #[trigger] spec_pipeline(doc, policy, cfg, store).unwrap().new_findings[i],
            ) != spec_fingerprint(
                #[trigger] spec_pipeline(doc, policy, cfg, store).unwrap().new_findings[j],
            ),
{
    let m = spec_pipeline(doc, policy, cfg, store).unwrap();
    let all = all_findings(doc, cfg).unwrap();
    lemma_report_len(m.new_findings, null_attrs(m.new_findings.len()));
    assert forall|i: int| 0 <= i < m.new_findings.len() implies !store.contains(
        #[trigger] spec_fingerprint(m.new_findings[i]),
    ) by {
        lemma_new_fresh(all, store, i);
    }
    assert forall|i: int, j: int| 0 <= i < j < m.new_findings.len() implies spec_fingerprint(
        #[trigger] m.new_findings[i],
    ) != spec_fingerprint(#[trigger] m.new_findings[j]) by {
        lemma_new_distinct(all, store, i, j);
    }
}

} // verus!
