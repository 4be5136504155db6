//! The declarative policy document and its evaluation into a verdict.
//!
//! Evaluation walks the scan types in the fixed order sast, dep, sca,
//! secret, license; every rule that matches overwrites the verdict, so
//! the last matching rule across all scan types determines the reported
//! reason and exit classification.
use vstd::prelude::*;
use crate::aggregate::AggregateCounts;
use crate::error::PipelineError;
use crate::finding::SevKey;
use crate::json::{JsonValue, obj_lookup};
use crate::strutil::{
    spec_lower, spec_u64_str, spec_i64_str, spec_contains_sub, to_lowercase, u64_to_string,
    i64_to_string, str_eq, contains_sub,
};

verus! {

/// The comparison of a threshold rule.
#[derive(Clone, Copy, PartialEq, Eq, Structural, Debug)]
pub enum ThresholdOp {
    GreaterThan,
    LessThan,
    EqualTo,
}

/// One threshold rule: a severity slot compared against a constant.
#[derive(Clone, Copy, PartialEq, Eq, Structural, Debug)]
pub struct ThresholdRule {
    pub key: SevKey,
    pub op: ThresholdOp,
    pub value: i64,
}

/// A parsed policy document: one optional rule node per scan-type key.
pub struct PolicyDoc {
    pub sast: Option<Vec<ThresholdRule>>,
    pub dep: Option<Vec<String>>,
    pub sca: Option<Vec<ThresholdRule>>,
    pub secret: Option<Vec<String>>,
    pub license: Option<Vec<String>>,
}

/// The mathematical content of a `PolicyDoc`.
pub ghost struct PolicyModel {
    pub sast: Option<Seq<ThresholdRule>>,
    pub dep: Option<Seq<Seq<char>>>,
    pub sca: Option<Seq<ThresholdRule>>,
    pub secret: Option<Seq<Seq<char>>>,
    pub license: Option<Seq<Seq<char>>>,
}

impl View for PolicyDoc {
    type V = PolicyModel;

    open spec fn view(&self) -> PolicyModel {
        PolicyModel {
            sast: match self.sast {
                Some(v) => Some(v@),
                None => None,
            },
            dep: match self.dep {
                Some(v) => Some(v.deep_view()),
                None => None,
            },
            sca: match self.sca {
                Some(v) => Some(v@),
                None => None,
            },
            secret: match self.secret {
                Some(v) => Some(v.deep_view()),
                None => None,
            },
            license: match self.license {
                Some(v) => Some(v.deep_view()),
                None => None,
            },
        }
    }
}

/// Which scan type a failing verdict is classified under.
#[derive(Clone, Copy, PartialEq, Eq, Structural, Debug)]
pub enum ExitClass {
    Passed,
    Sast,
    Sca,
    Secret,
    License,
}

/// The process exit code of a classification; the classes carry the
/// fixed codes of the scan types.
pub open spec fn spec_class_code(c: ExitClass) -> i32 {
    match c {
        ExitClass::Passed => 0,
        ExitClass::Sast => 103,
        ExitClass::Sca => 102,
        ExitClass::Secret => 104,
        ExitClass::License => 101,
    }
}

/// The pass/fail verdict of a run.
pub struct GateResult {
    pub failed: bool,
    pub reason: String,
    pub exit_class: ExitClass,
}

/// The mathematical content of a `GateResult`.
pub ghost struct GateModel {
    pub failed: bool,
    pub reason: Seq<char>,
    pub exit_class: ExitClass,
}

impl View for GateResult {
    type V = GateModel;

    open spec fn view(&self) -> GateModel {
        GateModel { failed: self.failed, reason: self.reason@, exit_class: self.exit_class }
    }
}

impl GateResult {
    /// The verdict before any rule matched: passing, with no reason.
    pub fn passing() -> (r: GateResult)
        ensures
            r@ == (GateModel {
                failed: false,
                reason: Seq::<char>::empty(),
                exit_class: ExitClass::Passed,
            }),
    {
        let r = GateResult {
            failed: false,
            reason: String::new(),
            exit_class: ExitClass::Passed,
        };
        r
    }

    /// The exit code the process should end with: 0 on pass, the failing
    /// scan type's code otherwise.
    pub fn exit_code(&self) -> (r: i32)
        ensures
            !self.failed ==> r == 0,
            self.failed ==> r == spec_class_code(self@.exit_class),
    {
        if !self.failed {
            0
        } else {
            match self.exit_class {
                ExitClass::Passed => 0,
                ExitClass::Sast => 103,
                ExitClass::Sca => 102,
                ExitClass::Secret => 104,
                ExitClass::License => 101,
            }
        }
    }
}

// ---------------------------------------------------------------------
// Parsing
// ---------------------------------------------------------------------
/// The severity slot a policy counter key names.
pub open spec fn sev_key_name(s: Seq<char>) -> Option<SevKey> {
    if s == "critical_count"@ {
        Some(SevKey::Critical)
    } else if s == "high_count"@ {
        Some(SevKey::High)
    } else if s == "medium_count"@ {
        Some(SevKey::Medium)
    } else if s == "low_count"@ {
        Some(SevKey::Low)
    } else if s == "info_count"@ {
        Some(SevKey::Info)
    } else if s == "warning_count"@ {
        Some(SevKey::Warning)
    } else if s == "error_count"@ {
        Some(SevKey::Error)
    } else {
        None
    }
}

/// The policy counter key of a severity slot.
pub open spec fn sev_key_text(k: SevKey) -> Seq<char> {
    match k {
        SevKey::Critical => "critical_count"@,
        SevKey::High => "high_count"@,
        SevKey::Medium => "medium_count"@,
        SevKey::Low => "low_count"@,
        SevKey::Info => "info_count"@,
        SevKey::Warning => "warning_count"@,
        SevKey::Error => "error_count"@,
    }
}

/// The policy counter key of a severity slot.
pub fn sev_key_text_str(k: SevKey) -> (r: &'static str)
    ensures
        r@ == sev_key_text(k),
{
    match k {
        SevKey::Critical => "critical_count",
        SevKey::High => "high_count",
        SevKey::Medium => "medium_count",
        SevKey::Low => "low_count",
        SevKey::Info => "info_count",
        SevKey::Warning => "warning_count",
        SevKey::Error => "error_count",
    }
}

/// The operator a policy string names.
pub open spec fn spec_parse_op(s: Seq<char>) -> Option<ThresholdOp> {
    if s == "greater_than"@ {
        Some(ThresholdOp::GreaterThan)
    } else if s == "less_than"@ {
        Some(ThresholdOp::LessThan)
    } else if s == "equal_to"@ {
        Some(ThresholdOp::EqualTo)
    } else {
        None
    }
}

/// The threshold rule one entry of a threshold node maps to; nothing when
/// the counter key, the operator or the value is malformed.
pub open spec fn parse_threshold_entry(e: (String, JsonValue)) -> Option<ThresholdRule> {
    match sev_key_name(e.0@) {
        Some(k) => match e.1.spec_get("operator"@) {
            Some(JsonValue::Str(o)) => match spec_parse_op(o@) {
                Some(op) => match e.1.spec_get("value"@) {
                    Some(JsonValue::Int(v)) => Some(ThresholdRule { key: k, op: op, value: v }),
                    _ => None,
                },
                None => None,
            },
            _ => None,
        },
        None => None,
    }
}

/// The rules of a threshold node's entries, in document order.
pub open spec fn parse_threshold_list(es: Seq<(String, JsonValue)>) -> Option<Seq<ThresholdRule>>
    decreases es.len(),
{
    if es.len() == 0 {
        Some(Seq::empty())
    } else {
        match (parse_threshold_list(es.drop_last()), parse_threshold_entry(es.last())) {
            (Some(a), Some(b)) => Some(a.push(b)),
            _ => None,
        }
    }
}

/// What a threshold node maps to: nothing when it is not a mapping of
/// well-formed rules.
pub open spec fn parse_threshold_node(v: JsonValue) -> Option<Seq<ThresholdRule>> {
    match v {
        JsonValue::Obj(es) => parse_threshold_list(es@),
        _ => None,
    }
}

/// The strings of a `contains` array; nothing when an entry is not a
/// string.
pub open spec fn parse_string_list(items: Seq<JsonValue>) -> Option<Seq<Seq<char>>>
    decreases items.len(),
{
    if items.len() == 0 {
        Some(Seq::empty())
    } else {
        match (parse_string_list(items.drop_last()), items.last()) {
            (Some(a), JsonValue::Str(s)) => Some(a.push(s@)),
            _ => None,
        }
    }
}

/// What a containment node maps to: the `contains` list when present, an
/// empty list when the node has no `contains` key, nothing when the
/// shape is wrong.
pub open spec fn parse_contains_node(v: JsonValue) -> Option<Seq<Seq<char>>> {
    match v {
        JsonValue::Obj(es) => match obj_lookup(es@, "contains"@) {
            Some(JsonValue::Arr(items)) => parse_string_list(items@),
            Some(_) => None,
            None => Some(Seq::empty()),
        },
        _ => None,
    }
}

/// What a policy document maps to; nothing when the document or one of
/// its rule nodes is malformed.
pub open spec fn spec_parse_policy(doc: JsonValue) -> Option<PolicyModel> {
    if !(doc is Obj) {
        None
    } else {
        let sast = match doc.spec_get("sast"@) {
            Some(v) => match parse_threshold_node(v) {
                Some(r) => Some(Some(r)),
                None => None,
            },
            None => Some(None),
        };
        let dep = match doc.spec_get("dep"@) {
            Some(v) => match parse_contains_node(v) {
                Some(r) => Some(Some(r)),
                None => None,
            },
            None => Some(None),
        };
        let sca = match doc.spec_get("sca"@) {
            Some(v) => match parse_threshold_node(v) {
                Some(r) => Some(Some(r)),
                None => None,
            },
            None => Some(None),
        };
        let secret = match doc.spec_get("secret"@) {
            Some(v) => match parse_contains_node(v) {
                Some(r) => Some(Some(r)),
                None => None,
            },
            None => Some(None),
        };
        let license = match doc.spec_get("license"@) {
            Some(v) => match parse_contains_node(v) {
                Some(r) => Some(Some(r)),
                None => None,
            },
            None => Some(None),
        };
        match (sast, dep, sca, secret, license) {
            (Some(a), Some(b), Some(c), Some(d), Some(e)) => Some(
                PolicyModel { sast: a, dep: b, sca: c, secret: d, license: e },
            ),
            _ => None,
        }
    }
}

/// Parses one threshold entry.
fn parse_threshold_entry_exec(name: &String, v: &JsonValue) -> (r: Option<ThresholdRule>)
    ensures
        r == parse_threshold_entry((*name, *v)),
{
    let key = if str_eq(name.as_str(), "critical_count") {
        SevKey::Critical
    } else if str_eq(name.as_str(), "high_count") {
        SevKey::High
    } else if str_eq(name.as_str(), "medium_count") {
        SevKey::Medium
    } else if str_eq(name.as_str(), "low_count") {
        SevKey::Low
    } else if str_eq(name.as_str(), "info_count") {
        SevKey::Info
    } else if str_eq(name.as_str(), "warning_count") {
        SevKey::Warning
    } else if str_eq(name.as_str(), "error_count") {
        SevKey::Error
    } else {
        return None;
    };
    let op_val = match v.get("operator") {
        Some(x) => match x.as_str() {
            Some(s) => s,
            None => {
                return None;
            },
        },
        None => {
            return None;
        },
    };
    let op = if str_eq(op_val.as_str(), "greater_than") {
        ThresholdOp::GreaterThan
    } else if str_eq(op_val.as_str(), "less_than") {
        ThresholdOp::LessThan
    } else if str_eq(op_val.as_str(), "equal_to") {
        ThresholdOp::EqualTo
    } else {
        return None;
    };
    let value = match v.get("value") {
        Some(x) => match x.as_int() {
            Some(n) => n,
            None => {
                return None;
            },
        },
        None => {
            return None;
        },
    };
    Some(ThresholdRule { key, op, value })
}

proof fn lemma_threshold_list_none(es: Seq<(String, JsonValue)>, i: int)
    requires
        0 <= i < es.len(),
        parse_threshold_entry(es[i]) is None,
    ensures
        parse_threshold_list(es) is None,
    decreases es.len(),
{
    if i < es.len() - 1 {
        lemma_threshold_list_none(es.drop_last(), i);
    }
}

/// Parses a threshold node.
fn parse_threshold_node_exec(v: &JsonValue) -> (r: Option<Vec<ThresholdRule>>)
    ensures
        match parse_threshold_node(*v) {
            Some(rules) => (r matches Some(rv) && rv@ == rules),
            None => r is None,
        },
{
    let es = match v.as_obj() {
        Some(e) => e,
        None => {
            return None;
        },
    };
    let n = es.len();
    let mut out: Vec<ThresholdRule> = Vec::new();
    let mut i: usize = 0;
    while i < n
        invariant
            v is Obj,
            v->Obj_0@ == es@,
            n == es@.len(),
            i <= n,
            parse_threshold_list(es@.take(i as int)) == Some(out@),
        decreases n - i,
    {
        proof {
            assert(es@.take(i + 1).drop_last() =~= es@.take(i as int));
            assert(es@.take(i + 1).last() == es@[i as int]);
        }
        match parse_threshold_entry_exec(&es[i].0, &es[i].1) {
            Some(rule) => {
                out.push(rule);
                proof {
                    assert(out@ =~= parse_threshold_list(es@.take(i + 1)).unwrap());
                }
            },
            None => {
                proof {
                    lemma_threshold_list_none(es@, i as int);
                }
                return None;
            },
        }
        i += 1;
    }
    proof {
        assert(es@.take(n as int) =~= es@);
    }
    Some(out)
}

proof fn lemma_string_list_none(items: Seq<JsonValue>, i: int)
    requires
        0 <= i < items.len(),
        !(items[i] is Str),
    ensures
        parse_string_list(items) is None,
    decreases items.len(),
{
    if i < items.len() - 1 {
        lemma_string_list_none(items.drop_last(), i);
    }
}

/// Parses a containment node.
fn parse_contains_node_exec(v: &JsonValue) -> (r: Option<Vec<String>>)
    ensures
        match parse_contains_node(*v) {
            Some(blocked) => (r matches Some(rv) && rv.deep_view() == blocked),
            None => r is None,
        },
{
    match v.as_obj() {
        Some(_) => {},
        None => {
            return None;
        },
    }
    let items = match v.get("contains") {
        Some(x) => match x.as_arr() {
            Some(a) => a,
            None => {
                return None;
            },
        },
        None => {
            let out: Vec<String> = Vec::new();
            proof {
                assert(out.deep_view() =~= Seq::<Seq<char>>::empty());
            }
            return Some(out);
        },
    };
    let n = items.len();
    let mut out: Vec<String> = Vec::new();
    let mut i: usize = 0;
    while i < n
        invariant
            v is Obj,
            v.spec_get("contains"@) == Some(JsonValue::Arr(*items)),
            n == items@.len(),
            i <= n,
            parse_string_list(items@.take(i as int)) == Some(out.deep_view()),
        decreases n - i,
    {
        proof {
            assert(items@.take(i + 1).drop_last() =~= items@.take(i as int));
            assert(items@.take(i + 1).last() == items@[i as int]);
        }
        match items[i].as_str() {
            Some(s) => {
                out.push(s.clone());
                proof {
                    assert(out.deep_view() =~= parse_string_list(items@.take(i + 1)).unwrap());
                }
            },
            None => {
                proof {
                    lemma_string_list_none(items@, i as int);
                }
                return None;
            },
        }
        i += 1;
    }
    proof {
        assert(items@.take(n as int) =~= items@);
    }
    Some(out)
}

/// Parses a policy document. Fails exactly when the document, or one of
/// its five known rule nodes, has the wrong shape; unknown top-level keys
/// are ignored.
pub fn parse_policy(doc: &JsonValue) -> (r: Result<PolicyDoc, PipelineError>)
    ensures
        match spec_parse_policy(*doc) {
            Some(m) => (r matches Ok(p) && p@ == m),
            None => r == Err::<PolicyDoc, PipelineError>(PipelineError::PolicySource),
        },
{
    match doc.as_obj() {
        Some(_) => {},
        None => {
            return Err(PipelineError::PolicySource);
        },
    }
    let sast = match doc.get("sast") {
        Some(v) => match parse_threshold_node_exec(v) {
            Some(rules) => Some(rules),
            None => {
                return Err(PipelineError::PolicySource);
            },
        },
        None => None,
    };
    let dep = match doc.get("dep") {
        Some(v) => match parse_contains_node_exec(v) {
            Some(blocked) => Some(blocked),
            None => {
                return Err(PipelineError::PolicySource);
            },
        },
        None => None,
    };
    let sca = match doc.get("sca") {
        Some(v) => match parse_threshold_node_exec(v) {
            Some(rules) => Some(rules),
            None => {
                return Err(PipelineError::PolicySource);
            },
        },
        None => None,
    };
    let secret = match doc.get("secret") {
        Some(v) => match parse_contains_node_exec(v) {
            Some(blocked) => Some(blocked),
            None => {
                return Err(PipelineError::PolicySource);
            },
        },
        None => None,
    };
    let license = match doc.get("license") {
        Some(v) => match parse_contains_node_exec(v) {
            Some(blocked) => Some(blocked),
            None => {
                return Err(PipelineError::PolicySource);
            },
        },
        None => None,
    };
    Ok(PolicyDoc { sast, dep, sca, secret, license })
}

// ---------------------------------------------------------------------
// Evaluation
// ---------------------------------------------------------------------
/// Whether a tallied count violates a threshold rule.
pub open spec fn threshold_matches(count: u64, op: ThresholdOp, value: i64) -> bool {
    match op {
        ThresholdOp::GreaterThan => count as int > value as int,
        ThresholdOp::LessThan => (count as int) < value as int,
        ThresholdOp::EqualTo => count as int == value as int,
    }
}

/// Whether a tallied count violates a threshold rule.
pub fn threshold_matches_exec(count: u64, op: ThresholdOp, value: i64) -> (r: bool)
    ensures
        r == threshold_matches(count, op, value),
{
    match op {
        ThresholdOp::GreaterThan => value < 0 || count > (value as u64),
        ThresholdOp::LessThan => value >= 0 && count < (value as u64),
        ThresholdOp::EqualTo => value >= 0 && count == (value as u64),
    }
}

/// The wording of an operator inside a failure reason.
pub open spec fn op_text(op: ThresholdOp) -> Seq<char> {
    match op {
        ThresholdOp::GreaterThan => "greater than"@,
        ThresholdOp::LessThan => "less than"@,
        ThresholdOp::EqualTo => "equal to"@,
    }
}

/// The reason reported for a violated threshold rule.
pub open spec fn threshold_reason(key: SevKey, count: u64, op: ThresholdOp, value: i64) -> Seq<
    char,
> {
    "Pipeline failed because "@ + sev_key_text(key) + " count is "@ + spec_u64_str(count)
        + " which is "@ + op_text(op) + " "@ + spec_i64_str(value)
}

/// The reason reported for a blocked identifier; `noun` names what kind
/// of identifier it was.
pub open spec fn blocked_reason(item: Seq<char>, noun: Seq<char>) -> Seq<char> {
    "Pipeline failed because "@ + item + noun + " is present in blocked list"@
}

fn threshold_reason_exec(key: SevKey, count: u64, op: ThresholdOp, value: i64) -> (r: String)
    ensures
        r@ == threshold_reason(key, count, op, value),
{
    let mut s = String::from_str("Pipeline failed because ");
    s.append(sev_key_text_str(key));
    s.append(" count is ");
    let c = u64_to_string(count);
    s.append(c.as_str());
    s.append(" which is ");
    let o = match op {
        ThresholdOp::GreaterThan => "greater than",
        ThresholdOp::LessThan => "less than",
        ThresholdOp::EqualTo => "equal to",
    };
    s.append(o);
    s.append(" ");
    let v = i64_to_string(value);
    s.append(v.as_str());
    proof {
        assert(s@ =~= threshold_reason(key, count, op, value));
    }
    s
}

fn blocked_reason_exec(item: &str, noun: &str) -> (r: String)
    ensures
        r@ == blocked_reason(item@, noun@),
{
    let mut s = String::from_str("Pipeline failed because ");
    s.append(item);
    s.append(noun);
    s.append(" is present in blocked list");
    proof {
        assert(s@ =~= blocked_reason(item@, noun@));
    }
    s
}

/// The verdict after applying one scan type's threshold rules in order to
/// its tallies, starting from `g`: each violated rule overwrites the
/// verdict with its reason and `class`.
pub open spec fn apply_threshold_rules(
    rules: Seq<ThresholdRule>,
    counts: AggregateCounts,
    class: ExitClass,
    g: GateModel,
) -> GateModel
    decreases rules.len(),
{
    if rules.len() == 0 {
        g
    } else {
        let prior = apply_threshold_rules(rules.drop_last(), counts, class, g);
        let r = rules.last();
        if threshold_matches(counts.spec_get(r.key), r.op, r.value) {
            GateModel {
                failed: true,
                reason: threshold_reason(r.key, counts.spec_get(r.key), r.op, r.value),
                exit_class: class,
            }
        } else {
            prior
        }
    }
}

/// Applies one scan type's threshold rules.
fn run_threshold_stage(
    rules: &Vec<ThresholdRule>,
    counts: &AggregateCounts,
    class: ExitClass,
    g: GateResult,
) -> (r: GateResult)
    ensures
        r@ == apply_threshold_rules(rules@, *counts, class, g@),
{
    let ghost g0 = g@;
    let mut cur = g;
    let n = rules.len();
    let mut i: usize = 0;
    while i < n
        invariant
            n == rules@.len(),
            i <= n,
            cur@ == apply_threshold_rules(rules@.take(i as int), *counts, class, g0),
        decreases n - i,
    {
        let rule = rules[i];
        let count = counts.get(rule.key);
        proof {
            assert(rules@.take(i + 1).drop_last() =~= rules@.take(i as int));
            assert(rules@.take(i + 1).last() == rules@[i as int]);
        }
        if threshold_matches_exec(count, rule.op, rule.value) {
            let reason = threshold_reason_exec(rule.key, count, rule.op, rule.value);
            cur = GateResult { failed: true, reason, exit_class: class };
        }
        i += 1;
    }
    proof {
        assert(rules@.take(n as int) =~= rules@);
    }
    cur
}

/// The verdict after checking the detected secret scanners against the
/// block list: every detected detector on the list overwrites the
/// verdict.
pub open spec fn apply_secret_rules(
    blocked: Seq<Seq<char>>,
    detectors: Seq<Seq<char>>,
    g: GateModel,
) -> GateModel
    decreases detectors.len(),
{
    if detectors.len() == 0 {
        g
    } else {
        let prior = apply_secret_rules(blocked, detectors.drop_last(), g);
        let d = detectors.last();
        if blocked.contains(d) {
            GateModel {
                failed: true,
                reason: blocked_reason(d, Seq::empty()),
                exit_class: ExitClass::Secret,
            }
        } else {
            prior
        }
    }
}

/// Applies the secret containment rule.
fn run_secret_stage(blocked: &Vec<String>, detectors: &Vec<String>, g: GateResult) -> (r:
    GateResult)
    ensures
        r@ == apply_secret_rules(blocked.deep_view(), detectors.deep_view(), g@),
{
    let ghost g0 = g@;
    let ghost dm = detectors.deep_view();
    let mut cur = g;
    let n = detectors.len();
    let mut i: usize = 0;
    while i < n
        invariant
            dm == detectors.deep_view(),
            n == detectors@.len(),
            dm.len() == n,
            i <= n,
            cur@ == apply_secret_rules(blocked.deep_view(), dm.take(i as int), g0),
        decreases n - i,
    {
        let d = &detectors[i];
        proof {
            assert(dm.take(i + 1).drop_last() =~= dm.take(i as int));
            assert(dm.take(i + 1).last() == dm[i as int]);
            assert(dm[i as int] == detectors@[i as int]@);
        }
        if crate::strutil::vec_contains_str(blocked, d.as_str()) {
            let reason = blocked_reason_exec(d.as_str(), "");
            cur = GateResult { failed: true, reason, exit_class: ExitClass::Secret };
            proof {
                crate::strutil::lemma_empty_strlit();
            }
        }
        i += 1;
    }
    proof {
        assert(dm.take(n as int) =~= dm);
    }
    cur
}

/// Whether a collected license matches the block list: case-insensitive
/// exact equality (collected licenses are already lower-cased).
pub open spec fn license_blocked(blocked: Seq<Seq<char>>, item: Seq<char>) -> bool {
    exists|bi: int| 0 <= bi < blocked.len() && spec_lower(blocked[bi]) == item
}

/// The verdict after checking the collected licenses against the block
/// list.
pub open spec fn apply_license_rules(
    blocked: Seq<Seq<char>>,
    licenses: Seq<Seq<char>>,
    g: GateModel,
) -> GateModel
    decreases licenses.len(),
{
    if licenses.len() == 0 {
        g
    } else {
        let prior = apply_license_rules(blocked, licenses.drop_last(), g);
        let l = licenses.last();
        if license_blocked(blocked, l) {
            GateModel {
                failed: true,
                reason: blocked_reason(l, " license"@),
                exit_class: ExitClass::License,
            }
        } else {
            prior
        }
    }
}

/// Whether a collected license equals some lower-cased blocked entry.
fn license_blocked_exec(blocked: &Vec<String>, item: &str) -> (r: bool)
    ensures
        r == license_blocked(blocked.deep_view(), item@),
{
    let ghost bm = blocked.deep_view();
    let n = blocked.len();
    let mut i: usize = 0;
    while i < n
        invariant
            bm == blocked.deep_view(),
            n == blocked@.len(),
            bm.len() == n,
            i <= n,
            forall|j: int| 0 <= j < i ==> spec_lower(bm[j]) != item@,
        decreases n - i,
    {
        let low = to_lowercase(blocked[i].as_str());
        proof {
            assert(bm[i as int] == blocked@[i as int]@);
        }
        if str_eq(low.as_str(), item) {
            return true;
        }
        i += 1;
    }
    proof {
        if license_blocked(bm, item@) {
            let j = choose|j: int| 0 <= j < bm.len() && spec_lower(bm[j]) == item@;
            assert(spec_lower(bm[j]) != item@);
        }
    }
    false
}

/// Applies the license containment rule.
fn run_license_stage(blocked: &Vec<String>, licenses: &Vec<String>, g: GateResult) -> (r:
    GateResult)
    ensures
        r@ == apply_license_rules(blocked.deep_view(), licenses.deep_view(), g@),
{
    let ghost g0 = g@;
    let ghost lm = licenses.deep_view();
    let mut cur = g;
    let n = licenses.len();
    let mut i: usize = 0;
    while i < n
        invariant
            lm == licenses.deep_view(),
            n == licenses@.len(),
            lm.len() == n,
            i <= n,
            cur@ == apply_license_rules(blocked.deep_view(), lm.take(i as int), g0),
        decreases n - i,
    {
        let l = &licenses[i];
        proof {
            assert(lm.take(i + 1).drop_last() =~= lm.take(i as int));
            assert(lm.take(i + 1).last() == lm[i as int]);
            assert(lm[i as int] == licenses@[i as int]@);
        }
        if license_blocked_exec(blocked, l.as_str()) {
            let reason = blocked_reason_exec(l.as_str(), " license");
            cur = GateResult { failed: true, reason, exit_class: ExitClass::License };
        }
        i += 1;
    }
    proof {
        assert(lm.take(n as int) =~= lm);
    }
    cur
}

/// Whether a package identifier matches the block list: some blocked
/// entry occurs in it as a substring, case-insensitively.
pub open spec fn dep_blocked(blocked: Seq<Seq<char>>, item: Seq<char>) -> bool {
    exists|bi: int|
        0 <= bi < blocked.len() && spec_contains_sub(spec_lower(item), spec_lower(blocked[bi]))
}

/// The verdict after checking the collected package identifiers against
/// the block list.
pub open spec fn apply_dep_rules(
    blocked: Seq<Seq<char>>,
    ids: Seq<Seq<char>>,
    g: GateModel,
) -> GateModel
    decreases ids.len(),
{
    if ids.len() == 0 {
        g
    } else {
        let prior = apply_dep_rules(blocked, ids.drop_last(), g);
        let p = ids.last();
        if dep_blocked(blocked, p) {
            GateModel {
                failed: true,
                reason: blocked_reason(p, " package"@),
                exit_class: ExitClass::Sca,
            }
        } else {
            prior
        }
    }
}

/// Whether some blocked entry occurs in the identifier,
/// case-insensitively.
fn dep_blocked_exec(blocked: &Vec<String>, item: &str) -> (r: bool)
    ensures
        r == dep_blocked(blocked.deep_view(), item@),
{
    let ghost bm = blocked.deep_view();
    let low_item = to_lowercase(item);
    let n = blocked.len();
    let mut i: usize = 0;
    while i < n
        invariant
            bm == blocked.deep_view(),
            n == blocked@.len(),
            bm.len() == n,
            i <= n,
            low_item@ == spec_lower(item@),
            forall|j: int|
                0 <= j < i ==> !spec_contains_sub(spec_lower(item@), spec_lower(bm[j])),
        decreases n - i,
    {
        let low_b = to_lowercase(blocked[i].as_str());
        proof {
            assert(bm[i as int] == blocked@[i as int]@);
        }
        if contains_sub(low_item.as_str(), low_b.as_str()) {
            return true;
        }
        i += 1;
    }
    proof {
        if dep_blocked(bm, item@) {
            let j = choose|j: int|
                0 <= j < bm.len() && spec_contains_sub(spec_lower(item@), spec_lower(bm[j]));
            assert(!spec_contains_sub(spec_lower(item@), spec_lower(bm[j])));
        }
    }
    false
}

/// Applies the dep containment rule.
fn run_dep_stage(blocked: &Vec<String>, ids: &Vec<String>, g: GateResult) -> (r: GateResult)
    ensures
        r@ == apply_dep_rules(blocked.deep_view(), ids.deep_view(), g@),
{
    let ghost g0 = g@;
    let ghost im = ids.deep_view();
    let mut cur = g;
    let n = ids.len();
    let mut i: usize = 0;
    while i < n
        invariant
            im == ids.deep_view(),
            n == ids@.len(),
            im.len() == n,
            i <= n,
            cur@ == apply_dep_rules(blocked.deep_view(), im.take(i as int), g0),
        decreases n - i,
    {
        let p = &ids[i];
        proof {
            assert(im.take(i + 1).drop_last() =~= im.take(i as int));
            assert(im.take(i + 1).last() == im[i as int]);
            assert(im[i as int] == ids@[i as int]@);
        }
        if dep_blocked_exec(blocked, p.as_str()) {
            let reason = blocked_reason_exec(p.as_str(), " package");
            cur = GateResult { failed: true, reason, exit_class: ExitClass::Sca };
        }
        i += 1;
    }
    proof {
        assert(im.take(n as int) =~= im);
    }
    cur
}

/// What a policy is evaluated against: the tallies and identifier collections
/// of the scan types that ran this invocation. A scan type that did not
/// run carries nothing and cannot cause failure.
pub struct GateInputs {
    pub sast: Option<AggregateCounts>,
    pub sca: Option<AggregateCounts>,
    pub packages: Option<Vec<String>>,
    pub detectors: Option<Vec<String>>,
    pub licenses: Option<Vec<String>>,
}

/// The mathematical content of `GateInputs`.
pub ghost struct GateInputsModel {
    pub sast: Option<AggregateCounts>,
    pub sca: Option<AggregateCounts>,
    pub packages: Option<Seq<Seq<char>>>,
    pub detectors: Option<Seq<Seq<char>>>,
    pub licenses: Option<Seq<Seq<char>>>,
}

impl View for GateInputs {
    type V = GateInputsModel;

    open spec fn view(&self) -> GateInputsModel {
        GateInputsModel {
            sast: self.sast,
            sca: self.sca,
            packages: match self.packages {
                Some(v) => Some(v.deep_view()),
                None => None,
            },
            detectors: match self.detectors {
                Some(v) => Some(v.deep_view()),
                None => None,
            },
            licenses: match self.licenses {
                Some(v) => Some(v.deep_view()),
                None => None,
            },
        }
    }
}

/// The verdict a policy produces on a run's data: scan types evaluated
/// in the fixed order sast, dep, sca, secret, license, each matching
/// rule overwriting the verdict, so the last match wins. A scan type
/// with no rule node, or that did not run, cannot cause failure.
pub open spec fn spec_evaluate(p: PolicyModel, inputs: GateInputsModel) -> GateModel {
    let g0 = GateModel { failed: false, reason: Seq::empty(), exit_class: ExitClass::Passed };
    let g1 = match (p.sast, inputs.sast) {
        (Some(rules), Some(c)) => apply_threshold_rules(rules, c, ExitClass::Sast, g0),
        _ => g0,
    };
    let g2 = match (p.dep, inputs.packages) {
        (Some(blocked), Some(ids)) => apply_dep_rules(blocked, ids, g1),
        _ => g1,
    };
    let g3 = match (p.sca, inputs.sca) {
        (Some(rules), Some(c)) => apply_threshold_rules(rules, c, ExitClass::Sca, g2),
        _ => g2,
    };
    let g4 = match (p.secret, inputs.detectors) {
        (Some(blocked), Some(ds)) => apply_secret_rules(blocked, ds, g3),
        _ => g3,
    };
    let g5 = match (p.license, inputs.licenses) {
        (Some(blocked), Some(ls)) => apply_license_rules(blocked, ls, g4),
        _ => g4,
    };
    g5
}

/// Evaluates a policy on a run's tallies and collections.
pub fn evaluate_policy(policy: &PolicyDoc, inputs: &GateInputs) -> (r: GateResult)
    ensures
        r@ == spec_evaluate(policy@, inputs@),
{
    let mut g = GateResult::passing();
    match (&policy.sast, &inputs.sast) {
        (Some(rules), Some(c)) => {
            g = run_threshold_stage(rules, c, ExitClass::Sast, g);
        },
        _ => {},
    }
    match (&policy.dep, &inputs.packages) {
        (Some(blocked), Some(ids)) => {
            g = run_dep_stage(blocked, ids, g);
        },
        _ => {},
    }
    match (&policy.sca, &inputs.sca) {
        (Some(rules), Some(c)) => {
            g = run_threshold_stage(rules, c, ExitClass::Sca, g);
        },
        _ => {},
    }
    match (&policy.secret, &inputs.detectors) {
        (Some(blocked), Some(ds)) => {
            g = run_secret_stage(blocked, ds, g);
        },
        _ => {},
    }
    match (&policy.license, &inputs.licenses) {
        (Some(blocked), Some(ls)) => {
            g = run_license_stage(blocked, ls, g);
        },
        _ => {},
    }
    g
}

} // verus!
