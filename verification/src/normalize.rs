//! Mapping each scan type's raw section of the results document to
//! canonical findings.
//!
//! Missing or malformed optional fields never fail: the affected field
//! gets an explicit sentinel (`"unknown"`, or the empty string where the
//! original reports nothing). A section whose overall shape is wrong is a
//! malformed input and stops the run.
use vstd::prelude::*;
use crate::error::PipelineError;
use crate::finding::{Finding, FindingModel, ScanKind};
use crate::json::JsonValue;
use crate::strutil::{spec_upper, to_uppercase};

verus! {

/// The string content of `o`, or `default` when `o` is not a string.
pub open spec fn str_or(o: Option<JsonValue>, default: Seq<char>) -> Seq<char> {
    match o {
        Some(JsonValue::Str(s)) => s@,
        _ => default,
    }
}

/// Lookup inside an optional object.
pub open spec fn opt_get(o: Option<JsonValue>, key: Seq<char>) -> Option<JsonValue> {
    match o {
        Some(x) => x.spec_get(key),
        None => None,
    }
}

/// The option behind an optional reference.
pub open spec fn deref_opt(o: Option<&JsonValue>) -> Option<JsonValue> {
    match o {
        Some(x) => Some(*x),
        None => None,
    }
}

/// Lookup inside an optional object.
pub fn get_opt<'a>(o: Option<&'a JsonValue>, key: &str) -> (r: Option<&'a JsonValue>)
    ensures
        deref_opt(r) == opt_get(deref_opt(o), key@),
{
    match o {
        Some(x) => x.get(key),
        None => None,
    }
}

/// The string under `key` of the optional object `o`, or `default`.
pub fn str_field<'a>(o: Option<&'a JsonValue>, key: &str, default: &str) -> (r: String)
    ensures
        r@ == str_or(opt_get(deref_opt(o), key@), default@),
{
    match get_opt(o, key) {
        Some(x) => match x.as_str() {
            Some(s) => s.clone(),
            None => String::from_str(default),
        },
        None => String::from_str(default),
    }
}

/// An empty string.
pub fn empty_string() -> (r: String)
    ensures
        r@ == Seq::<char>::empty(),
{
    String::new()
}

/// The finding a single raw SAST result maps to.
pub open spec fn sast_finding(v: JsonValue) -> FindingModel {
    let extra = v.spec_get("extra"@);
    FindingModel {
        kind: ScanKind::Sast,
        identifier: str_or(v.spec_get("check_id"@), "unknown"@),
        path: str_or(v.spec_get("path"@), "unknown"@),
        line: str_or(opt_get(extra, "lines"@), Seq::empty()),
        manifest: Seq::empty(),
        severity: str_or(opt_get(extra, "severity"@), "unknown"@),
        message: str_or(opt_get(extra, "message"@), "unknown"@),
        provenance: Seq::empty(),
        package: Seq::empty(),
        version: Seq::empty(),
        ecosystem: Seq::empty(),
        cwe: Seq::empty(),
        raw_value: Seq::empty(),
        detector: Seq::empty(),
        licenses: Seq::empty(),
    }
}

/// The findings of a list of raw SAST results, in order.
pub open spec fn sast_list(items: Seq<JsonValue>) -> Seq<FindingModel>
    decreases items.len(),
{
    if items.len() == 0 {
        Seq::empty()
    } else {
        sast_list(items.drop_last()).push(sast_finding(items.last()))
    }
}

/// Maps one raw SAST result.
fn normalize_sast_one(v: &JsonValue) -> (r: Finding)
    ensures
        r@ == sast_finding(*v),
{
    let extra = v.get("extra");
    let r = Finding {
        kind: ScanKind::Sast,
        identifier: str_field(Some(v), "check_id", "unknown"),
        path: str_field(Some(v), "path", "unknown"),
        line: str_field(extra, "lines", ""),
        manifest: empty_string(),
        severity: str_field(extra, "severity", "unknown"),
        message: str_field(extra, "message", "unknown"),
        provenance: empty_string(),
        package: empty_string(),
        version: empty_string(),
        ecosystem: empty_string(),
        cwe: empty_string(),
        raw_value: empty_string(),
        detector: empty_string(),
        licenses: Vec::new(),
    };
    proof {
        crate::strutil::lemma_empty_strlit();
        assert(r.licenses.deep_view() =~= Seq::<Seq<char>>::empty());
        assert(r@ == sast_finding(*v));
    }
    r
}

/// Maps the `sast` section: one finding per raw result. Fails exactly
/// when the section is not an array.
pub fn normalize_sast(section: &JsonValue) -> (r: Result<Vec<Finding>, PipelineError>)
    ensures
        section is Arr ==> (r matches Ok(fs) && fs.deep_view() == sast_list(section->Arr_0@)),
        !(section is Arr) ==> r == Err::<Vec<Finding>, PipelineError>(PipelineError::MalformedInput),
{
    let items = match section.as_arr() {
        Some(a) => a,
        None => {
            return Err(PipelineError::MalformedInput);
        },
    };
    let n = items.len();
    let mut out: Vec<Finding> = Vec::new();
    let mut i: usize = 0;
    while i < n
        invariant
            n == items@.len(),
            i <= n,
            out.deep_view() == sast_list(items@.take(i as int)),
        decreases n - i,
    {
        let f = normalize_sast_one(&items[i]);
        out.push(f);
        proof {
            assert(items@.take(i + 1).drop_last() =~= items@.take(i as int));
            assert(items@.take(i + 1).last() == items@[i as int]);
            assert(out.deep_view() =~= sast_list(items@.take(i + 1)));
        }
        i += 1;
    }
    proof {
        assert(items@.take(n as int) =~= items@);
    }
    Ok(out)
}

/// The finding a single raw secret result maps to. The detector name is
/// upper-cased: it is the canonical block-list key.
pub open spec fn secret_finding(v: JsonValue) -> FindingModel {
    let fsys = opt_get(opt_get(v.spec_get("SourceMetadata"@), "Data"@), "Filesystem"@);
    let detector = spec_upper(str_or(v.spec_get("DetectorName"@), "unknown"@));
    FindingModel {
        kind: ScanKind::Secret,
        identifier: detector,
        path: str_or(opt_get(fsys, "file"@), "unknown"@),
        line: str_or(opt_get(fsys, "line"@), Seq::empty()),
        manifest: Seq::empty(),
        severity: Seq::empty(),
        message: "Secret detected by "@ + detector,
        provenance: Seq::empty(),
        package: Seq::empty(),
        version: Seq::empty(),
        ecosystem: Seq::empty(),
        cwe: Seq::empty(),
        raw_value: str_or(v.spec_get("Raw"@), Seq::empty()),
        detector: detector,
        licenses: Seq::empty(),
    }
}

/// The findings of a list of raw secret results, in order.
pub open spec fn secret_list(items: Seq<JsonValue>) -> Seq<FindingModel>
    decreases items.len(),
{
    if items.len() == 0 {
        Seq::empty()
    } else {
        secret_list(items.drop_last()).push(secret_finding(items.last()))
    }
}

/// Maps one raw secret result.
fn normalize_secret_one(v: &JsonValue) -> (r: Finding)
    ensures
        r@ == secret_finding(*v),
{
    let meta = v.get("SourceMetadata");
    let data = get_opt(meta, "Data");
    let fsys = get_opt(data, "Filesystem");
    let raw_detector = str_field(Some(v), "DetectorName", "unknown");
    let detector = to_uppercase(raw_detector.as_str());
    let detector2 = detector.clone();
    let mut message = String::from_str("Secret detected by ");
    message.append(detector2.as_str());
    let r = Finding {
        kind: ScanKind::Secret,
        identifier: detector2,
        path: str_field(fsys, "file", "unknown"),
        line: str_field(fsys, "line", ""),
        manifest: empty_string(),
        severity: empty_string(),
        message,
        provenance: empty_string(),
        package: empty_string(),
        version: empty_string(),
        ecosystem: empty_string(),
        cwe: empty_string(),
        raw_value: str_field(Some(v), "Raw", ""),
        detector,
        licenses: Vec::new(),
    };
    proof {
        crate::strutil::lemma_empty_strlit();
        assert(r.licenses.deep_view() =~= Seq::<Seq<char>>::empty());
        assert(r@ == secret_finding(*v));
    }
    r
}

/// Maps the `secret` section: one finding per entry of its `results`
/// array. Fails exactly when the section is not an object with a
/// `results` array.
pub fn normalize_secret(section: &JsonValue) -> (r: Result<Vec<Finding>, PipelineError>)
    ensures
        match section.spec_get("results"@) {
            Some(JsonValue::Arr(items)) => r matches Ok(fs) && fs.deep_view() == secret_list(
                items@,
            ),
            _ => r == Err::<Vec<Finding>, PipelineError>(PipelineError::MalformedInput),
        },
{
    let results = match section.get("results") {
        Some(x) => x,
        None => {
            return Err(PipelineError::MalformedInput);
        },
    };
    let items = match results.as_arr() {
        Some(a) => a,
        None => {
            return Err(PipelineError::MalformedInput);
        },
    };
    let n = items.len();
    let mut out: Vec<Finding> = Vec::new();
    let mut i: usize = 0;
    while i < n
        invariant
            n == items@.len(),
            i <= n,
            out.deep_view() == secret_list(items@.take(i as int)),
        decreases n - i,
    {
        let f = normalize_secret_one(&items[i]);
        out.push(f);
        proof {
            assert(items@.take(i + 1).drop_last() =~= items@.take(i as int));
            assert(items@.take(i + 1).last() == items@[i as int]);
            assert(out.deep_view() =~= secret_list(items@.take(i + 1)));
        }
        i += 1;
    }
    proof {
        assert(items@.take(n as int) =~= items@);
    }
    Ok(out)
}

/// The first element of an array value when it is a string, else
/// `default`; also `default` when the value is not a non-empty array.
pub open spec fn first_str_of(o: Option<JsonValue>, default: Seq<char>) -> Seq<char> {
    match o {
        Some(JsonValue::Arr(a)) => if a@.len() > 0 {
            match a@[0] {
                JsonValue::Str(s) => s@,
                _ => default,
            }
        } else {
            default
        },
        _ => default,
    }
}

/// The first string of the array under `key` of the optional object `o`,
/// or `default`.
fn first_str_field<'a>(o: Option<&'a JsonValue>, key: &str, default: &str) -> (r: String)
    ensures
        r@ == first_str_of(opt_get(deref_opt(o), key@), default@),
{
    match get_opt(o, key) {
        Some(x) => match x.as_arr() {
            Some(a) => {
                if a.len() > 0 {
                    match a[0].as_str() {
                        Some(s) => s.clone(),
                        None => String::from_str(default),
                    }
                } else {
                    String::from_str(default)
                }
            },
            None => String::from_str(default),
        },
        None => String::from_str(default),
    }
}

/// The severity of a raw vulnerability, with `MODERATE` normalized to
/// `MEDIUM`.
pub open spec fn sca_severity(vuln: JsonValue) -> Seq<char> {
    let s = str_or(opt_get(vuln.spec_get("database_specific"@), "severity"@), "unknown"@);
    if s == "MODERATE"@ {
        "MEDIUM"@
    } else {
        s
    }
}

/// The identifier of a raw vulnerability: its first alias when present,
/// else its first CWE id, else the unknown sentinel.
pub open spec fn sca_identifier(vuln: JsonValue) -> Seq<char> {
    let alias = first_str_of(vuln.spec_get("aliases"@), Seq::empty());
    let cwe = first_str_of(
        opt_get(vuln.spec_get("database_specific"@), "cwe_ids"@),
        Seq::empty(),
    );
    if alias.len() > 0 {
        alias
    } else if cwe.len() > 0 {
        cwe
    } else {
        "unknown"@
    }
}

/// The finding one (package, vulnerability) pair of a manifest maps to.
pub open spec fn sca_finding(manifest: Seq<char>, pkg: JsonValue, vuln: JsonValue) -> FindingModel {
    let pinfo = pkg.spec_get("package"@);
    FindingModel {
        kind: ScanKind::Sca,
        identifier: sca_identifier(vuln),
        path: manifest,
        line: Seq::empty(),
        manifest: manifest,
        severity: sca_severity(vuln),
        message: str_or(vuln.spec_get("summary"@), "unknown"@),
        provenance: Seq::empty(),
        package: str_or(opt_get(pinfo, "name"@), "unknown"@),
        version: str_or(opt_get(pinfo, "version"@), "unknown"@),
        ecosystem: str_or(opt_get(pinfo, "ecosystem"@), "unknown"@),
        cwe: first_str_of(
            opt_get(vuln.spec_get("database_specific"@), "cwe_ids"@),
            Seq::empty(),
        ),
        raw_value: Seq::empty(),
        detector: Seq::empty(),
        licenses: Seq::empty(),
    }
}

/// The findings of one package's vulnerability list, in order.
pub open spec fn sca_vuln_list(manifest: Seq<char>, pkg: JsonValue, vulns: Seq<JsonValue>) -> Seq<
    FindingModel,
>
    decreases vulns.len(),
{
    if vulns.len() == 0 {
        Seq::empty()
    } else {
        sca_vuln_list(manifest, pkg, vulns.drop_last()).push(
            sca_finding(manifest, pkg, vulns.last()),
        )
    }
}

/// The findings of one package, or nothing when its vulnerability list is
/// missing or not an array.
pub open spec fn sca_pkg_findings(manifest: Seq<char>, pkg: JsonValue) -> Option<Seq<FindingModel>> {
    match pkg.spec_get("vulnerabilities"@) {
        Some(JsonValue::Arr(vs)) => Some(sca_vuln_list(manifest, pkg, vs@)),
        _ => None,
    }
}

/// The findings of a manifest's package list, concatenated in order;
/// nothing as soon as one package is malformed.
pub open spec fn sca_pkg_list(manifest: Seq<char>, pkgs: Seq<JsonValue>) -> Option<
    Seq<FindingModel>,
>
    decreases pkgs.len(),
{
    if pkgs.len() == 0 {
        Some(Seq::empty())
    } else {
        match (sca_pkg_list(manifest, pkgs.drop_last()), sca_pkg_findings(manifest, pkgs.last())) {
            (Some(a), Some(b)) => Some(a + b),
            _ => None,
        }
    }
}

/// The findings of one manifest entry: empty package lists are skipped;
/// a missing or non-array package list is malformed.
pub open spec fn sca_manifest_findings(name: Seq<char>, value: JsonValue) -> Option<
    Seq<FindingModel>,
> {
    match value.spec_get("packages"@) {
        Some(JsonValue::Arr(ps)) => if ps@.len() == 0 {
            Some(Seq::empty())
        } else {
            sca_pkg_list(name, ps@)
        },
        _ => None,
    }
}

/// The findings of the whole `sca` section's manifest entries, in order.
pub open spec fn sca_entry_list(entries: Seq<(String, JsonValue)>) -> Option<Seq<FindingModel>>
    decreases entries.len(),
{
    if entries.len() == 0 {
        Some(Seq::empty())
    } else {
        match (
            sca_entry_list(entries.drop_last()),
            sca_manifest_findings(entries.last().0@, entries.last().1),
        ) {
            (Some(a), Some(b)) => Some(a + b),
            _ => None,
        }
    }
}

/// What the `sca` section maps to: nothing when it, or a part of it, has
/// the wrong shape.
pub open spec fn norm_sca(section: JsonValue) -> Option<Seq<FindingModel>> {
    match section {
        JsonValue::Obj(es) => sca_entry_list(es@),
        _ => None,
    }
}

proof fn lemma_sca_pkg_none(manifest: Seq<char>, pkgs: Seq<JsonValue>, i: int)
    requires
        0 <= i < pkgs.len(),
        sca_pkg_findings(manifest, pkgs[i]) is None,
    ensures
        sca_pkg_list(manifest, pkgs) is None,
    decreases pkgs.len(),
{
    if i < pkgs.len() - 1 {
        lemma_sca_pkg_none(manifest, pkgs.drop_last(), i);
    }
}

proof fn lemma_sca_entry_none(entries: Seq<(String, JsonValue)>, i: int)
    requires
        0 <= i < entries.len(),
        sca_manifest_findings(entries[i].0@, entries[i].1) is None,
    ensures
        sca_entry_list(entries) is None,
    decreases entries.len(),
{
    if i < entries.len() - 1 {
        lemma_sca_entry_none(entries.drop_last(), i);
    }
}

/// Maps one (package, vulnerability) pair.
fn normalize_sca_one(manifest: &str, pkg: &JsonValue, vuln: &JsonValue) -> (r: Finding)
    ensures
        r@ == sca_finding(manifest@, *pkg, *vuln),
{
    let pinfo = pkg.get("package");
    let alias = first_str_field(Some(vuln), "aliases", "");
    let dbspec = vuln.get("database_specific");
    let cwe = match dbspec {
        Some(d) => first_str_field(Some(d), "cwe_ids", ""),
        None => empty_string(),
    };
    let identifier = if alias.as_str().unicode_len() > 0 {
        alias
    } else if cwe.as_str().unicode_len() > 0 {
        cwe.clone()
    } else {
        String::from_str("unknown")
    };
    let raw_severity = match dbspec {
        Some(d) => str_field(Some(d), "severity", "unknown"),
        None => String::from_str("unknown"),
    };
    let severity = if crate::strutil::str_eq(raw_severity.as_str(), "MODERATE") {
        String::from_str("MEDIUM")
    } else {
        raw_severity
    };
    let r = Finding {
        kind: ScanKind::Sca,
        identifier,
        path: String::from_str(manifest),
        line: empty_string(),
        manifest: String::from_str(manifest),
        severity,
        message: str_field(Some(vuln), "summary", "unknown"),
        provenance: empty_string(),
        package: str_field(pinfo, "name", "unknown"),
        version: str_field(pinfo, "version", "unknown"),
        ecosystem: str_field(pinfo, "ecosystem", "unknown"),
        cwe,
        raw_value: empty_string(),
        detector: empty_string(),
        licenses: Vec::new(),
    };
    proof {
        crate::strutil::lemma_empty_strlit();
        assert(r.licenses.deep_view() =~= Seq::<Seq<char>>::empty());
        assert(r@ == sca_finding(manifest@, *pkg, *vuln));
    }
    r
}

/// Maps the `sca` section: manifest by manifest, package by package, one
/// finding per vulnerability. Fails exactly when the section shape is
/// wrong.
pub fn normalize_sca(section: &JsonValue) -> (r: Result<Vec<Finding>, PipelineError>)
    ensures
        match norm_sca(*section) {
            Some(fs) => (r matches Ok(v) && v.deep_view() == fs),
            None => r == Err::<Vec<Finding>, PipelineError>(PipelineError::MalformedInput),
        },
{
    let entries = match section.as_obj() {
        Some(e) => e,
        None => {
            return Err(PipelineError::MalformedInput);
        },
    };
    let ghost es = entries@;
    let n = entries.len();
    let mut out: Vec<Finding> = Vec::new();
    let mut i: usize = 0;
    while i < n
        invariant
            section is Obj,
            section->Obj_0@ == es,
            entries@ == es,
            n == es.len(),
            i <= n,
            sca_entry_list(es.take(i as int)) == Some(out.deep_view()),
        decreases n - i,
    {
        let name = &entries[i].0;
        let value = &entries[i].1;
        proof {
            assert(es.take(i + 1).drop_last() =~= es.take(i as int));
            assert(es.take(i + 1).last() == es[i as int]);
        }
        let ps = match value.get("packages") {
            Some(x) => match x.as_arr() {
                Some(a) => a,
                None => {
                    proof {
                        lemma_sca_entry_none(es, i as int);
                    }
                    return Err(PipelineError::MalformedInput);
                },
            },
            None => {
                proof {
                    lemma_sca_entry_none(es, i as int);
                }
                return Err(PipelineError::MalformedInput);
            },
        };
        let pn = ps.len();
        if pn > 0 {
            let mut mvec: Vec<Finding> = Vec::new();
            let mut j: usize = 0;
            while j < pn
                invariant
                    section is Obj,
                    section->Obj_0@ == es,
                    n == es.len(),
                    i < n,
                    es[i as int].1.spec_get("packages"@) == Some(JsonValue::Arr(*ps)),
                    pn == ps@.len(),
                    pn > 0,
                    j <= pn,
                    sca_entry_list(es.take(i as int)) == Some(out.deep_view()),
                    sca_pkg_list(es[i as int].0@, ps@.take(j as int)) == Some(mvec.deep_view()),
                    name@ == es[i as int].0@,
                decreases pn - j,
            {
                let pkg = &ps[j];
                proof {
                    assert(ps@.take(j + 1).drop_last() =~= ps@.take(j as int));
                    assert(ps@.take(j + 1).last() == ps@[j as int]);
                }
                let vs = match pkg.get("vulnerabilities") {
                    Some(x) => match x.as_arr() {
                        Some(a) => a,
                        None => {
                            proof {
                                lemma_sca_pkg_none(es[i as int].0@, ps@, j as int);
                                lemma_sca_entry_none(es, i as int);
                            }
                            return Err(PipelineError::MalformedInput);
                        },
                    },
                    None => {
                        proof {
                            lemma_sca_pkg_none(es[i as int].0@, ps@, j as int);
                            lemma_sca_entry_none(es, i as int);
                        }
                        return Err(PipelineError::MalformedInput);
                    },
                };
                let vn = vs.len();
                let mut pvec: Vec<Finding> = Vec::new();
                let mut k: usize = 0;
                while k < vn
                    invariant
                        vn == vs@.len(),
                        k <= vn,
                        pvec.deep_view() == sca_vuln_list(name@, ps@[j as int], vs@.take(k as int)),
                        name@ == es[i as int].0@,
                        i < n,
                        n == es.len(),
                        j < pn,
                        pn == ps@.len(),
                        *pkg == ps@[j as int],
                        ps@[j as int].spec_get("vulnerabilities"@) == Some(JsonValue::Arr(*vs)),
                    decreases vn - k,
                {
                    let f = normalize_sca_one(name.as_str(), pkg, &vs[k]);
                    pvec.push(f);
                    proof {
                        assert(vs@.take(k + 1).drop_last() =~= vs@.take(k as int));
                        assert(vs@.take(k + 1).last() == vs@[k as int]);
                        assert(pvec.deep_view() =~= sca_vuln_list(
                            name@,
                            ps@[j as int],
                            vs@.take(k + 1),
                        ));
                    }
                    k += 1;
                }
                proof {
                    assert(vs@.take(vn as int) =~= vs@);
                    assert(sca_pkg_findings(name@, ps@[j as int]) == Some(pvec.deep_view()));
                }
                let ghost old_m = mvec.deep_view();
                let ghost add_m = pvec.deep_view();
                mvec.append(&mut pvec);
                proof {
                    assert(mvec.deep_view() =~= old_m + add_m);
                    assert(sca_pkg_list(es[i as int].0@, ps@.take(j + 1)) == Some(
                        mvec.deep_view(),
                    ));
                }
                j += 1;
            }
            proof {
                assert(ps@.take(pn as int) =~= ps@);
                assert(sca_manifest_findings(es[i as int].0@, es[i as int].1) == Some(
                    mvec.deep_view(),
                ));
            }
            let ghost old_o = out.deep_view();
            let ghost add_o = mvec.deep_view();
            out.append(&mut mvec);
            proof {
                assert(out.deep_view() =~= old_o + add_o);
                assert(sca_entry_list(es.take(i + 1)) == Some(out.deep_view()));
            }
        } else {
            proof {
                assert(sca_manifest_findings(es[i as int].0@, es[i as int].1) == Some(
                    Seq::<FindingModel>::empty(),
                ));
                assert(out.deep_view() + Seq::<FindingModel>::empty() =~= out.deep_view());
                assert(sca_entry_list(es.take(i + 1)) == Some(out.deep_view()));
            }
        }
        i += 1;
    }
    proof {
        assert(es.take(n as int) =~= es);
    }
    Ok(out)
}

/// The license strings of one package's license array, with the unknown
/// sentinel for entries that are not strings.
pub open spec fn license_strings(items: Seq<JsonValue>) -> Seq<Seq<char>>
    decreases items.len(),
{
    if items.len() == 0 {
        Seq::empty()
    } else {
        license_strings(items.drop_last()).push(
            match items.last() {
                JsonValue::Str(s) => s@,
                _ => "unknown"@,
            },
        )
    }
}

/// The synthetic finding of one (manifest, package) pair, or nothing when
/// the package's license list is not an array.
pub open spec fn license_finding(
    manifest: Seq<char>,
    pkg_name: Seq<char>,
    licenses_v: JsonValue,
) -> Option<FindingModel> {
    match licenses_v {
        JsonValue::Arr(items) => Some(
            FindingModel {
                kind: ScanKind::License,
                identifier: pkg_name,
                path: manifest,
                line: Seq::empty(),
                manifest: manifest,
                severity: Seq::empty(),
                message: Seq::empty(),
                provenance: Seq::empty(),
                package: pkg_name,
                version: Seq::empty(),
                ecosystem: Seq::empty(),
                cwe: Seq::empty(),
                raw_value: Seq::empty(),
                detector: Seq::empty(),
                licenses: license_strings(items@),
            },
        ),
        _ => None,
    }
}

/// The findings of one manifest's package map, in order.
pub open spec fn license_pkg_list(manifest: Seq<char>, pkgs: Seq<(String, JsonValue)>) -> Option<
    Seq<FindingModel>,
>
    decreases pkgs.len(),
{
    if pkgs.len() == 0 {
        Some(Seq::empty())
    } else {
        match (
            license_pkg_list(manifest, pkgs.drop_last()),
            license_finding(manifest, pkgs.last().0@, pkgs.last().1),
        ) {
            (Some(a), Some(b)) => Some(a.push(b)),
            _ => None,
        }
    }
}

/// The findings of one manifest entry of the `license` section.
pub open spec fn license_manifest_findings(name: Seq<char>, value: JsonValue) -> Option<
    Seq<FindingModel>,
> {
    match value {
        JsonValue::Obj(pkgs) => license_pkg_list(name, pkgs@),
        _ => None,
    }
}

/// The findings of the whole `license` section, in order.
pub open spec fn license_entry_list(entries: Seq<(String, JsonValue)>) -> Option<Seq<FindingModel>>
    decreases entries.len(),
{
    if entries.len() == 0 {
        Some(Seq::empty())
    } else {
        match (
            license_entry_list(entries.drop_last()),
            license_manifest_findings(entries.last().0@, entries.last().1),
        ) {
            (Some(a), Some(b)) => Some(a + b),
            _ => None,
        }
    }
}

/// What the `license` section maps to: one synthetic finding per
/// (manifest, package) pair, carrying the package's license strings.
pub open spec fn norm_license(section: JsonValue) -> Option<Seq<FindingModel>> {
    match section {
        JsonValue::Obj(es) => license_entry_list(es@),
        _ => None,
    }
}

proof fn lemma_license_pkg_none(manifest: Seq<char>, pkgs: Seq<(String, JsonValue)>, i: int)
    requires
        0 <= i < pkgs.len(),
        license_finding(manifest, pkgs[i].0@, pkgs[i].1) is None,
    ensures
        license_pkg_list(manifest, pkgs) is None,
    decreases pkgs.len(),
{
    if i < pkgs.len() - 1 {
        lemma_license_pkg_none(manifest, pkgs.drop_last(), i);
    }
}

proof fn lemma_license_entry_none(entries: Seq<(String, JsonValue)>, i: int)
    requires
        0 <= i < entries.len(),
        license_manifest_findings(entries[i].0@, entries[i].1) is None,
    ensures
        license_entry_list(entries) is None,
    decreases entries.len(),
{
    if i < entries.len() - 1 {
        lemma_license_entry_none(entries.drop_last(), i);
    }
}

/// Maps one (manifest, package, licenses) triple.
fn normalize_license_one(manifest: &str, pkg_name: &str, items: &Vec<JsonValue>) -> (r: Finding)
    ensures
        Some(r@) == license_finding(manifest@, pkg_name@, JsonValue::Arr(*items)),
{
    let n = items.len();
    let mut ls: Vec<String> = Vec::new();
    let mut i: usize = 0;
    while i < n
        invariant
            n == items@.len(),
            i <= n,
            ls.deep_view() == license_strings(items@.take(i as int)),
        decreases n - i,
    {
        let s = match items[i].as_str() {
            Some(s) => s.clone(),
            None => String::from_str("unknown"),
        };
        ls.push(s);
        proof {
            assert(items@.take(i + 1).drop_last() =~= items@.take(i as int));
            assert(items@.take(i + 1).last() == items@[i as int]);
            assert(ls.deep_view() =~= license_strings(items@.take(i + 1)));
        }
        i += 1;
    }
    proof {
        assert(items@.take(n as int) =~= items@);
    }
    let r = Finding {
        kind: ScanKind::License,
        identifier: String::from_str(pkg_name),
        path: String::from_str(manifest),
        line: empty_string(),
        manifest: String::from_str(manifest),
        severity: empty_string(),
        message: empty_string(),
        provenance: empty_string(),
        package: String::from_str(pkg_name),
        version: empty_string(),
        ecosystem: empty_string(),
        cwe: empty_string(),
        raw_value: empty_string(),
        detector: empty_string(),
        licenses: ls,
    };
    proof {
        assert(Some(r@) == license_finding(manifest@, pkg_name@, JsonValue::Arr(*items)));
    }
    r
}

/// Maps the `license` section: one synthetic finding per (manifest,
/// package) pair. Fails exactly when the section shape is wrong.
pub fn normalize_license(section: &JsonValue) -> (r: Result<Vec<Finding>, PipelineError>)
    ensures
        match norm_license(*section) {
            Some(fs) => (r matches Ok(v) && v.deep_view() == fs),
            None => r == Err::<Vec<Finding>, PipelineError>(PipelineError::MalformedInput),
        },
{
    let entries = match section.as_obj() {
        Some(e) => e,
        None => {
            return Err(PipelineError::MalformedInput);
        },
    };
    let ghost es = entries@;
    let n = entries.len();
    let mut out: Vec<Finding> = Vec::new();
    let mut i: usize = 0;
    while i < n
        invariant
            section is Obj,
            section->Obj_0@ == es,
            entries@ == es,
            n == es.len(),
            i <= n,
            license_entry_list(es.take(i as int)) == Some(out.deep_view()),
        decreases n - i,
    {
        let name = &entries[i].0;
        let value = &entries[i].1;
        proof {
            assert(es.take(i + 1).drop_last() =~= es.take(i as int));
            assert(es.take(i + 1).last() == es[i as int]);
        }
        let pkgs = match value.as_obj() {
            Some(p) => p,
            None => {
                proof {
                    lemma_license_entry_none(es, i as int);
                }
                return Err(PipelineError::MalformedInput);
            },
        };
        let pn = pkgs.len();
        let mut mvec: Vec<Finding> = Vec::new();
        let mut j: usize = 0;
        while j < pn
            invariant
                section is Obj,
                section->Obj_0@ == es,
                pn == pkgs@.len(),
                j <= pn,
                license_pkg_list(es[i as int].0@, pkgs@.take(j as int)) == Some(mvec.deep_view()),
                name@ == es[i as int].0@,
                i < n,
                n == es.len(),
                es[i as int].1 is Obj,
                es[i as int].1->Obj_0@ == pkgs@,
            decreases pn - j,
        {
            proof {
                assert(pkgs@.take(j + 1).drop_last() =~= pkgs@.take(j as int));
                assert(pkgs@.take(j + 1).last() == pkgs@[j as int]);
            }
            let items = match pkgs[j].1.as_arr() {
                Some(a) => a,
                None => {
                    proof {
                        lemma_license_pkg_none(es[i as int].0@, pkgs@, j as int);
                        lemma_license_entry_none(es, i as int);
                    }
                    return Err(PipelineError::MalformedInput);
                },
            };
            let f = normalize_license_one(name.as_str(), pkgs[j].0.as_str(), items);
            mvec.push(f);
            proof {
                assert(license_pkg_list(es[i as int].0@, pkgs@.take(j + 1)) == Some(
                    mvec.deep_view(),
                ));
            }
            j += 1;
        }
        proof {
            assert(pkgs@.take(pn as int) =~= pkgs@);
            assert(license_manifest_findings(es[i as int].0@, es[i as int].1) == Some(
                mvec.deep_view(),
            ));
        }
        let ghost old_o = out.deep_view();
        let ghost add_o = mvec.deep_view();
        out.append(&mut mvec);
        proof {
            assert(out.deep_view() =~= old_o + add_o);
            assert(license_entry_list(es.take(i + 1)) == Some(out.deep_view()));
        }
        i += 1;
    }
    proof {
        assert(es.take(n as int) =~= es);
    }
    Ok(out)
}

} // verus!
