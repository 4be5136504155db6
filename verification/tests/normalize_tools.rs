//! The normalizers' field mapping and the scan tools' verified sides.
use scan_gate::error::PipelineError;
use scan_gate::finding::ScanKind;
use scan_gate::json::JsonValue;
use scan_gate::normalize::{normalize_license, normalize_sast, normalize_sca, normalize_secret};
use scan_gate::scans::{
    LicenseCompliance, LicenseTool, Sast, SastTool, Sca, ScaTool, ScanCommand, Scanner, Secret,
    SecretTool,
};

fn s(text: &str) -> JsonValue {
    JsonValue::Str(String::from(text))
}

fn obj(entries: Vec<(&str, JsonValue)>) -> JsonValue {
    JsonValue::Obj(entries.into_iter().map(|(k, v)| (String::from(k), v)).collect())
}

fn get<'a>(v: &'a JsonValue, key: &str) -> &'a JsonValue {
    v.get(key).unwrap()
}

#[test]
fn sast_missing_fields_become_unknown() {
    let section = JsonValue::Arr(vec![obj(vec![("path", s("f.rs"))])]);
    let fs = normalize_sast(&section).unwrap();
    assert_eq!(fs.len(), 1);
    assert_eq!(fs[0].identifier, "unknown");
    assert_eq!(fs[0].path, "f.rs");
    assert_eq!(fs[0].severity, "unknown");
    assert_eq!(fs[0].message, "unknown");
    assert_eq!(fs[0].line, "");
    assert_eq!(fs[0].kind, ScanKind::Sast);
}

#[test]
fn sast_section_must_be_an_array() {
    let section = obj(vec![("results", JsonValue::Arr(vec![]))]);
    assert!(matches!(normalize_sast(&section), Err(PipelineError::MalformedInput)));
}

fn sca_section(severity: &str, aliases: Vec<JsonValue>, cwes: Vec<JsonValue>) -> JsonValue {
    obj(vec![(
        "m.lock",
        obj(vec![(
            "packages",
            JsonValue::Arr(vec![obj(vec![
                (
                    "package",
                    obj(vec![("name", s("a")), ("version", s("1")), ("ecosystem", s("npm"))]),
                ),
                (
                    "vulnerabilities",
                    JsonValue::Arr(vec![obj(vec![
                        ("summary", s("an issue")),
                        (
                            "database_specific",
                            obj(vec![
                                ("severity", s(severity)),
                                ("cwe_ids", JsonValue::Arr(cwes)),
                            ]),
                        ),
                        ("aliases", JsonValue::Arr(aliases)),
                    ])]),
                ),
            ])]),
        )]),
    )])
}

#[test]
fn sca_moderate_severity_becomes_medium() {
    let fs = normalize_sca(&sca_section("MODERATE", vec![s("CVE-1")], vec![s("CWE-79")])).unwrap();
    assert_eq!(fs.len(), 1);
    assert_eq!(fs[0].severity, "MEDIUM");
    assert_eq!(fs[0].identifier, "CVE-1");
    // The first CWE id is carried beside the alias, not displaced by it.
    assert_eq!(fs[0].cwe, "CWE-79");
    assert_eq!(fs[0].package, "a");
    assert_eq!(fs[0].version, "1");
    assert_eq!(fs[0].ecosystem, "npm");
    assert_eq!(fs[0].manifest, "m.lock");
}

#[test]
fn sca_first_cwe_when_no_alias() {
    let fs = normalize_sca(&sca_section("HIGH", vec![], vec![s("CWE-79"), s("CWE-89")])).unwrap();
    assert_eq!(fs[0].severity, "HIGH");
    assert_eq!(fs[0].identifier, "CWE-79");
    assert_eq!(fs[0].cwe, "CWE-79");
}

#[test]
fn sca_empty_package_list_is_skipped() {
    let section = obj(vec![("empty.lock", obj(vec![("packages", JsonValue::Arr(vec![]))]))]);
    let fs = normalize_sca(&section).unwrap();
    assert_eq!(fs.len(), 0);
}

#[test]
fn sca_missing_packages_is_malformed() {
    let section = obj(vec![("m.lock", obj(vec![]))]);
    assert!(matches!(normalize_sca(&section), Err(PipelineError::MalformedInput)));
}

#[test]
fn secret_detector_is_upper_cased() {
    let section = obj(vec![(
        "results",
        JsonValue::Arr(vec![obj(vec![
            ("DetectorName", s("aws")),
            ("Raw", s("AKIA")),
            (
                "SourceMetadata",
                obj(vec![(
                    "Data",
                    obj(vec![("Filesystem", obj(vec![("file", s("a.py")), ("line", JsonValue::Int(7))]))]),
                )]),
            ),
        ])]),
    )]);
    let fs = normalize_secret(&section).unwrap();
    assert_eq!(fs.len(), 1);
    assert_eq!(fs[0].detector, "AWS");
    assert_eq!(fs[0].identifier, "AWS");
    assert_eq!(fs[0].path, "a.py");
    // A numeric line is not a string: the sentinel is the empty string.
    assert_eq!(fs[0].line, "");
    assert_eq!(fs[0].raw_value, "AKIA");
}

#[test]
fn license_non_string_entry_becomes_unknown() {
    let section = obj(vec![(
        "m.lock",
        obj(vec![("pkgA", JsonValue::Arr(vec![s("MIT"), JsonValue::Int(3)]))]),
    )]);
    let fs = normalize_license(&section).unwrap();
    assert_eq!(fs.len(), 1);
    assert_eq!(fs[0].kind, ScanKind::License);
    assert_eq!(fs[0].identifier, "pkgA");
    assert_eq!(fs[0].licenses, vec![String::from("MIT"), String::from("unknown")]);
}

#[test]
fn scanner_dispatches_commands_to_kinds() {
    let scanner = Scanner::new();
    assert_eq!(scanner.execute_scan(ScanCommand::Sast), ScanKind::Sast);
    assert_eq!(scanner.execute_scan(ScanCommand::Sca), ScanKind::Sca);
    assert_eq!(scanner.execute_scan(ScanCommand::Secret), ScanKind::Secret);
    assert_eq!(scanner.execute_scan(ScanCommand::LicenseCompliance), ScanKind::License);
}

#[test]
fn sast_tool_merges_results_array() {
    let tool = SastTool::new();
    let scanner_output = obj(vec![("results", JsonValue::Arr(vec![JsonValue::Int(1)]))]);
    let mut doc = obj(vec![]);
    tool.run_scan(scanner_output, &mut doc).unwrap();
    match get(&doc, "sast") {
        JsonValue::Arr(items) => assert_eq!(items.len(), 1),
        _ => panic!("sast section must be an array"),
    }
}

#[test]
fn sast_tool_rejects_output_without_results() {
    let tool = Sast::new();
    let mut doc = obj(vec![]);
    let r = tool.run_scan(obj(vec![]), &mut doc);
    assert!(matches!(r, Err(PipelineError::MalformedInput)));
}

#[test]
fn secret_tool_keeps_only_detections() {
    let tool = SecretTool::new();
    let output = "{\"SourceMetadata\":{\"Data\":{}},\"DetectorName\":\"AWS\"}\n{\"chatter\":true}\n\n{\"SourceMetadata\":null,\"DetectorName\":\"GCP\"}\n";
    let mut doc = obj(vec![]);
    tool.run_scan(output, &mut doc).unwrap();
    let results = get(get(&doc, "secret"), "results");
    match results {
        JsonValue::Arr(items) => {
            assert_eq!(items.len(), 1);
            match items[0].get("DetectorName").unwrap() {
                JsonValue::Str(d) => assert_eq!(d, "AWS"),
                _ => panic!("detector must be a string"),
            }
        },
        _ => panic!("results must be an array"),
    }
}

#[test]
fn secret_tool_rejects_non_json_line() {
    let tool = Secret::new();
    let mut doc = obj(vec![]);
    let r = tool.run_scan("not json at all\n", &mut doc);
    assert!(matches!(r, Err(PipelineError::MalformedInput)));
}

#[test]
fn sca_tool_writes_placeholder_for_clean_manifest() {
    let tool = ScaTool::new();
    let manifests = vec![(
        String::from("a/m.lock"),
        obj(vec![("results", JsonValue::Arr(vec![]))]),
    )];
    let mut doc = obj(vec![]);
    tool.run_scan(manifests, &mut doc).unwrap();
    let entry = get(get(&doc, "sca"), "a/m.lock");
    match get(entry, "packages") {
        JsonValue::Arr(items) => assert_eq!(items.len(), 0),
        _ => panic!("packages must be an array"),
    }
    match get(get(entry, "source"), "path") {
        JsonValue::Str(p) => assert_eq!(p, "a/m.lock"),
        _ => panic!("source path must be a string"),
    }
}

#[test]
fn sca_tool_keeps_first_result() {
    let tool = Sca::new();
    let first = obj(vec![("packages", JsonValue::Arr(vec![JsonValue::Int(9)]))]);
    let manifests = vec![(
        String::from("m.lock"),
        obj(vec![("results", JsonValue::Arr(vec![first, obj(vec![])]))]),
    )];
    let mut doc = obj(vec![]);
    tool.run_scan(manifests, &mut doc).unwrap();
    let entry = get(get(&doc, "sca"), "m.lock");
    match get(entry, "packages") {
        JsonValue::Arr(items) => assert_eq!(items.len(), 1),
        _ => panic!("packages must be an array"),
    }
}

#[test]
fn install_plan_for_python_manifest() {
    let tool = ScaTool::new();
    let detected = vec![String::from("app/requirements.txt")];
    let cmds = tool.install_project_dependencies(&detected, "/tmp/install", true, false, false, "-q");
    assert_eq!(
        cmds,
        vec![
            String::from("cd app/ && pip install -r requirements.txt -q"),
            String::from("cd app/ && sh /tmp/install/python.sh"),
        ]
    );
}

#[test]
fn install_plan_for_pnpm_manifest_without_script() {
    let tool = ScaTool::new();
    let detected = vec![String::from("web/pnpm-lock.yaml")];
    let cmds = tool.install_project_dependencies(&detected, "/tmp/install", false, false, false, "");
    assert_eq!(cmds, vec![String::from("cd web/ && pnpm install --force --ignore-scripts ")]);
}

#[test]
fn install_plan_skips_unknown_manifests() {
    let tool = ScaTool::new();
    let detected = vec![String::from("Cargo.toml")];
    let cmds = tool.install_project_dependencies(&detected, "/tmp/install", true, true, true, "");
    assert_eq!(cmds.len(), 0);
}

#[test]
fn license_tool_extracts_component_license_ids() {
    let tool = LicenseTool::new();
    let doc = obj(vec![(
        "components",
        JsonValue::Arr(vec![obj(vec![
            ("name", s("a")),
            ("version", s("1")),
            (
                "licenses",
                JsonValue::Arr(vec![
                    obj(vec![("license", obj(vec![("id", s("MIT"))]))]),
                    obj(vec![("license", obj(vec![]))]),
                ]),
            ),
        ])]),
    )]);
    let records = tool.run_scan(&doc).unwrap();
    assert_eq!(records.len(), 1);
    assert_eq!(records[0].0, "a@1");
    assert_eq!(records[0].1, vec![String::from("MIT")]);
}

#[test]
fn license_tool_rejects_missing_components() {
    let tool = LicenseCompliance::new();
    let r = tool.run_scan(&obj(vec![]));
    assert!(matches!(r, Err(PipelineError::MalformedInput)));
}

#[test]
fn sca_tool_leaves_document_untouched_for_no_manifests() {
    let tool = ScaTool::new();
    let mut doc = obj(vec![("sast", JsonValue::Arr(vec![]))]);
    tool.run_scan(Vec::new(), &mut doc).unwrap();
    assert!(doc.get("sca").is_none());
    assert!(doc.get("sast").is_some());
}
