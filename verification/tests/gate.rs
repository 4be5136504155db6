//! End-to-end runs of the policy-gated pipeline and the policy verdict
//! semantics.
use scan_gate::aggregate::AggregateCounts;
use scan_gate::dedup::DedupStore;
use scan_gate::error::PipelineError;
use scan_gate::finding::SevKey;
use scan_gate::pipeline::{gate_from_text, RunConfig};
use scan_gate::policy::{
    evaluate_policy, ExitClass, GateInputs, PolicyDoc, ThresholdOp, ThresholdRule,
};

fn all_scans() -> RunConfig {
    RunConfig { sast: true, sca: true, secret: true, license: true }
}

fn counts_with_high(high: u64) -> AggregateCounts {
    AggregateCounts { critical: 0, high, medium: 0, low: 0, info: 0, warning: 0, error: 0 }
}

fn no_inputs() -> GateInputs {
    GateInputs { sast: None, sca: None, packages: None, detectors: None, licenses: None }
}

fn empty_policy() -> PolicyDoc {
    PolicyDoc { sast: None, dep: None, sca: None, secret: None, license: None }
}

const SECRET_DOC: &str = "{\"secret\":{\"results\":[{\"DetectorName\":\"AWS\",\"Raw\":\"AKIA...\",\"SourceMetadata\":{\"Data\":{\"Filesystem\":{\"file\":\"a.py\",\"line\":10}}}}]}}";

#[test]
fn end_to_end_secret_blocklist() {
    let mut store = DedupStore::new();
    let policy = "{\"secret\":{\"contains\":[\"AWS\"]}}";
    let out = gate_from_text(SECRET_DOC, Some(policy), all_scans(), &mut store).unwrap();
    assert!(out.gate.failed);
    assert!(out.gate.reason.contains("AWS"));
    assert_eq!(out.gate.exit_class, ExitClass::Secret);
    assert_eq!(out.exit_code, 104);
    assert_eq!(out.report.entries.len(), 1);
    let entry = &out.report.entries[0];
    assert_eq!(entry.location, "a.py");
    assert!(entry.tags.iter().any(|t| t == "SECRET"));
}

#[test]
fn replayed_run_reports_nothing_new() {
    let mut store = DedupStore::new();
    let first = gate_from_text(SECRET_DOC, None, all_scans(), &mut store).unwrap();
    assert_eq!(first.report.entries.len(), 1);
    assert_eq!(first.new_findings.len(), 1);
    let ledger_after_first = store.contents().len();
    let second = gate_from_text(SECRET_DOC, None, all_scans(), &mut store).unwrap();
    assert_eq!(second.report.entries.len(), 0);
    assert_eq!(second.new_findings.len(), 0);
    assert_eq!(store.contents().len(), ledger_after_first);
}

#[test]
fn duplicate_findings_in_one_run_are_reported_once() {
    let one = "{\"DetectorName\":\"AWS\",\"Raw\":\"x\",\"SourceMetadata\":{\"Data\":{\"Filesystem\":{\"file\":\"a.py\"}}}}";
    let doc = format!("{{\"secret\":{{\"results\":[{},{}]}}}}", one, one);
    let doc = doc.as_str();
    let mut store = DedupStore::new();
    let out = gate_from_text(doc, None, all_scans(), &mut store).unwrap();
    assert_eq!(out.report.entries.len(), 1);
}

#[test]
fn license_collection_ignores_dedup() {
    let doc = "{\"license\":{\"m.lock\":{\"pkgA\":[\"MIT\",\"GPL-3.0\"]}}}";
    let policy = "{\"license\":{\"contains\":[\"gpl-3.0\"]}}";
    let mut store = DedupStore::new();
    let first = gate_from_text(doc, Some(policy), all_scans(), &mut store).unwrap();
    assert!(first.gate.failed);
    assert_eq!(first.exit_code, 101);
    assert_eq!(first.report.entries.len(), 1);
    // The finding is now known to the ledger: nothing is NEW, yet the
    // collected license set is unchanged and still violates the policy.
    let second = gate_from_text(doc, Some(policy), all_scans(), &mut store).unwrap();
    assert_eq!(second.report.entries.len(), 0);
    assert!(second.gate.failed);
    assert!(second.gate.reason.contains("gpl-3.0"));
    assert_eq!(second.exit_code, 101);
}

#[test]
fn threshold_high_three_greater_than_three_passes() {
    let policy = PolicyDoc {
        sast: Some(vec![ThresholdRule {
            key: SevKey::High,
            op: ThresholdOp::GreaterThan,
            value: 3,
        }]),
        ..empty_policy()
    };
    let inputs = GateInputs { sast: Some(counts_with_high(3)), ..no_inputs() };
    let verdict = evaluate_policy(&policy, &inputs);
    assert!(!verdict.failed);
    assert_eq!(verdict.exit_code(), 0);
}

#[test]
fn threshold_high_three_greater_than_two_fails() {
    let policy = PolicyDoc {
        sast: Some(vec![ThresholdRule {
            key: SevKey::High,
            op: ThresholdOp::GreaterThan,
            value: 2,
        }]),
        ..empty_policy()
    };
    let inputs = GateInputs { sast: Some(counts_with_high(3)), ..no_inputs() };
    let verdict = evaluate_policy(&policy, &inputs);
    assert!(verdict.failed);
    assert_eq!(
        verdict.reason,
        "Pipeline failed because high_count count is 3 which is greater than 2"
    );
    assert_eq!(verdict.exit_class, ExitClass::Sast);
    assert_eq!(verdict.exit_code(), 103);
}

#[test]
fn threshold_high_three_equal_to_three_fails() {
    let policy = PolicyDoc {
        sast: Some(vec![ThresholdRule { key: SevKey::High, op: ThresholdOp::EqualTo, value: 3 }]),
        ..empty_policy()
    };
    let inputs = GateInputs { sast: Some(counts_with_high(3)), ..no_inputs() };
    let verdict = evaluate_policy(&policy, &inputs);
    assert!(verdict.failed);
}

#[test]
fn containment_detector_set_fails_with_reason() {
    let policy = PolicyDoc {
        secret: Some(vec![String::from("AWS")]),
        ..empty_policy()
    };
    let inputs = GateInputs { detectors: Some(vec![String::from("AWS")]), ..no_inputs() };
    let verdict = evaluate_policy(&policy, &inputs);
    assert!(verdict.failed);
    assert!(verdict.reason.contains("AWS"));
    assert_eq!(verdict.exit_class, ExitClass::Secret);
}

#[test]
fn last_matching_rule_wins() {
    let policy = PolicyDoc {
        sast: Some(vec![ThresholdRule {
            key: SevKey::High,
            op: ThresholdOp::GreaterThan,
            value: 0,
        }]),
        license: Some(vec![String::from("mit")]),
        ..empty_policy()
    };
    let inputs = GateInputs {
        sast: Some(counts_with_high(1)),
        licenses: Some(vec![String::from("mit")]),
        ..no_inputs()
    };
    let verdict = evaluate_policy(&policy, &inputs);
    assert!(verdict.failed);
    assert_eq!(verdict.exit_class, ExitClass::License);
    assert!(verdict.reason.contains("mit license"));
}

#[test]
fn dep_containment_matches_substring_case_insensitively() {
    let policy = PolicyDoc { dep: Some(vec![String::from("Lodash")]), ..empty_policy() };
    let inputs = GateInputs {
        packages: Some(vec![String::from("lodash@4.17.0")]),
        ..no_inputs()
    };
    let verdict = evaluate_policy(&policy, &inputs);
    assert!(verdict.failed);
    assert_eq!(verdict.exit_class, ExitClass::Sca);
    assert!(verdict.reason.contains("lodash@4.17.0"));
}

#[test]
fn disabled_scan_type_cannot_fail() {
    let policy = PolicyDoc {
        secret: Some(vec![String::from("AWS")]),
        ..empty_policy()
    };
    // The secret scan did not run: no detectors were collected.
    let verdict = evaluate_policy(&policy, &no_inputs());
    assert!(!verdict.failed);
}

#[test]
fn absent_policy_always_passes() {
    let mut store = DedupStore::new();
    let out = gate_from_text(SECRET_DOC, None, all_scans(), &mut store).unwrap();
    assert!(!out.gate.failed);
    assert_eq!(out.exit_code, 0);
    assert_eq!(out.report.entries.len(), 1);
}

#[test]
fn unparseable_results_text_is_malformed_input() {
    let mut store = DedupStore::new();
    let r = gate_from_text("this is not json", None, all_scans(), &mut store);
    assert!(matches!(r, Err(PipelineError::MalformedInput)));
    assert_eq!(store.contents().len(), 0);
}

#[test]
fn bad_policy_shape_is_policy_source_error() {
    let mut store = DedupStore::new();
    let r = gate_from_text(SECRET_DOC, Some("[1,2,3]"), all_scans(), &mut store);
    assert!(matches!(r, Err(PipelineError::PolicySource)));
    assert_eq!(store.contents().len(), 0);
}

#[test]
fn unknown_operator_is_policy_source_error() {
    let mut store = DedupStore::new();
    let policy = "{\"sast\":{\"high_count\":{\"operator\":\"at_least\",\"value\":1}}}";
    let r = gate_from_text(SECRET_DOC, Some(policy), all_scans(), &mut store);
    assert!(matches!(r, Err(PipelineError::PolicySource)));
}

#[test]
fn malformed_section_aborts_without_registering() {
    let mut store = DedupStore::new();
    // The sast section must be an array.
    let r = gate_from_text("{\"sast\":{\"oops\":1}}", None, all_scans(), &mut store);
    assert!(matches!(r, Err(PipelineError::MalformedInput)));
    assert_eq!(store.contents().len(), 0);
}

#[test]
fn policy_thresholds_parse_and_gate_counts() {
    let r1 = "{\"check_id\":\"r1\",\"path\":\"a.rs\",\"extra\":{\"severity\":\"HIGH\",\"message\":\"m\",\"lines\":\"3\"}}";
    let r2 = "{\"check_id\":\"r2\",\"path\":\"b.rs\",\"extra\":{\"severity\":\"high\",\"message\":\"m\",\"lines\":\"4\"}}";
    let doc = format!("{{\"sast\":[{},{}]}}", r1, r2);
    let doc = doc.as_str();
    let policy = "{\"sast\":{\"high_count\":{\"operator\":\"greater_than\",\"value\":1}}}";
    let mut store = DedupStore::new();
    let out = gate_from_text(doc, Some(policy), all_scans(), &mut store).unwrap();
    assert!(out.gate.failed);
    assert_eq!(
        out.gate.reason,
        "Pipeline failed because high_count count is 2 which is greater than 1"
    );
    assert_eq!(out.exit_code, 103);
    assert_eq!(out.report.entries.len(), 2);
}

#[test]
fn empty_document_yields_empty_passing_run() {
    let mut store = DedupStore::new();
    let out = gate_from_text("{}", None, all_scans(), &mut store).unwrap();
    assert!(!out.gate.failed);
    assert_eq!(out.exit_code, 0);
    assert_eq!(out.report.entries.len(), 0);
    assert_eq!(store.contents().len(), 0);
}

#[test]
fn unknown_severities_are_tolerated_but_not_counted() {
    let r1 = "{\"check_id\":\"r1\",\"path\":\"a.rs\",\"extra\":{\"severity\":\"bizarre\",\"message\":\"m\"}}";
    let doc = format!("{{\"sast\":[{}]}}", r1);
    let policy = "{\"sast\":{\"high_count\":{\"operator\":\"greater_than\",\"value\":0}}}";
    let mut store = DedupStore::new();
    let out = gate_from_text(doc.as_str(), Some(policy), all_scans(), &mut store).unwrap();
    assert!(!out.gate.failed);
    assert_eq!(out.report.entries.len(), 1);
}

#[test]
fn negative_threshold_value_compares_as_integer() {
    let policy = PolicyDoc {
        sast: Some(vec![ThresholdRule {
            key: SevKey::High,
            op: ThresholdOp::GreaterThan,
            value: -1,
        }]),
        ..empty_policy()
    };
    let inputs = GateInputs { sast: Some(counts_with_high(0)), ..no_inputs() };
    let verdict = evaluate_policy(&policy, &inputs);
    assert!(verdict.failed);
    assert_eq!(
        verdict.reason,
        "Pipeline failed because high_count count is 0 which is greater than -1"
    );
}

#[test]
fn containment_node_without_contains_key_cannot_fail() {
    let policy = "{\"secret\":{}}";
    let mut store = DedupStore::new();
    let out = gate_from_text(SECRET_DOC, Some(policy), all_scans(), &mut store).unwrap();
    assert!(!out.gate.failed);
}

#[test]
fn threshold_rule_without_value_is_policy_source_error() {
    let policy = "{\"sast\":{\"high_count\":{\"operator\":\"greater_than\"}}}";
    let mut store = DedupStore::new();
    let r = gate_from_text(SECRET_DOC, Some(policy), all_scans(), &mut store);
    assert!(matches!(r, Err(PipelineError::PolicySource)));
}
