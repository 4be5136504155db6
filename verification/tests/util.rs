//! Unit checks of the string helpers, command planning, fingerprints,
//! the ledger, attribution parsing and report building.
use scan_gate::attribution::{parse_blame, resolve_attribution, AttributionInfo};
use scan_gate::commands::{
    command_plan, error_is_warning, error_should_exit, select_command_output, should_report_error,
};
use scan_gate::dedup::DedupStore;
use scan_gate::finding::{Finding, ScanKind};
use scan_gate::fingerprint::fingerprint;
use scan_gate::report::{build_report, format_digest};
use scan_gate::strutil::{
    contains_sub, i64_to_string, split_lines, split_path, starts_with, str_eq, to_lowercase,
    to_uppercase, tokenize, u64_to_string,
};

fn plain_finding() -> Finding {
    Finding {
        kind: ScanKind::Sast,
        identifier: String::from("rule-1"),
        path: String::from("src/a.rs"),
        line: String::from("10"),
        manifest: String::new(),
        severity: String::from("HIGH"),
        message: String::from("dangerous call"),
        provenance: String::new(),
        package: String::new(),
        version: String::new(),
        ecosystem: String::new(),
        cwe: String::new(),
        raw_value: String::new(),
        detector: String::new(),
        licenses: Vec::new(),
    }
}

#[test]
fn string_helpers_behave() {
    assert!(str_eq("abc", "abc"));
    assert!(!str_eq("abc", "abd"));
    assert_eq!(to_lowercase("AbC-9"), "abc-9");
    assert_eq!(to_uppercase("aws"), "AWS");
    assert!(contains_sub("package lodash@4", "lodash"));
    assert!(!contains_sub("abc", "abd"));
    assert!(starts_with("warning: x", "warning"));
    assert!(!starts_with("x warning", "warning"));
}

#[test]
fn decimal_rendering_is_exact() {
    assert_eq!(u64_to_string(0), "0");
    assert_eq!(u64_to_string(1234567890), "1234567890");
    assert_eq!(i64_to_string(-5), "-5");
    assert_eq!(i64_to_string(42), "42");
    assert_eq!(i64_to_string(i64::MIN), "-9223372036854775808");
}

#[test]
fn splitting_and_tokenizing() {
    assert_eq!(split_lines("a\nb"), vec![String::from("a"), String::from("b")]);
    assert_eq!(split_lines("a\n"), vec![String::from("a"), String::from("")]);
    assert_eq!(tokenize("  git  clone x "), vec![
        String::from("git"),
        String::from("clone"),
        String::from("x"),
    ]);
    let (folder, file) = split_path("a/b/c.txt");
    assert_eq!(folder, "a/b/");
    assert_eq!(file, "c.txt");
    let (folder2, file2) = split_path("plain.txt");
    assert_eq!(folder2, "");
    assert_eq!(file2, "plain.txt");
}

#[test]
fn command_planning() {
    let shell = command_plan("cd /tmp && ls");
    assert!(shell.use_shell);
    let direct = command_plan("git clone url");
    assert!(!direct.use_shell);
    assert_eq!(direct.program, "git");
    assert_eq!(direct.args, vec![String::from("clone"), String::from("url")]);
    let empty = command_plan("");
    assert_eq!(empty.program, "");
    assert_eq!(empty.args.len(), 0);
    assert_eq!(
        select_command_output(String::new(), String::from("oops")),
        "oops"
    );
    assert_eq!(
        select_command_output(String::from("fine"), String::from("oops")),
        "fine"
    );
    assert!(should_report_error("boom", false, false));
    assert!(!should_report_error("boom", true, false));
    assert!(!should_report_error("boom", false, true));
    assert!(error_is_warning("Warning: minor"));
    assert!(!error_is_warning("Error: major"));
    assert!(error_should_exit(104));
    assert!(!error_should_exit(101));
}

#[test]
fn fingerprint_is_a_hex_digest() {
    let fp = fingerprint(&plain_finding());
    assert_eq!(fp.len(), 64);
    assert!(fp.chars().all(|c| c.is_ascii_hexdigit()));
}

#[test]
fn fingerprint_ignores_provenance_text() {
    let a = plain_finding();
    let mut b = plain_finding();
    b.provenance = String::from(" (committed by someone yesterday)");
    assert_eq!(fingerprint(&a), fingerprint(&b));
}

#[test]
fn fingerprint_depends_on_content() {
    let a = plain_finding();
    let mut b = plain_finding();
    b.message = String::from("different message");
    assert_ne!(fingerprint(&a), fingerprint(&b));
    let mut c = plain_finding();
    c.line = String::from("11");
    assert_ne!(fingerprint(&a), fingerprint(&c));
}

#[test]
fn bulk_check_returns_exactly_the_known_queried_hashes() {
    let store = DedupStore::from_hashes(vec![
        String::from("a1"),
        String::from("b2"),
        String::from("c3"),
    ]);
    let query = vec![String::from("b2"), String::from("c3"), String::from("d4")];
    let known = store.bulk_check(&query);
    assert_eq!(known, vec![String::from("b2"), String::from("c3")]);
    for h in &known {
        assert!(query.contains(h));
    }
}

#[test]
fn register_is_idempotent() {
    let mut store = DedupStore::new();
    store.register(String::from("h7"));
    store.register(String::from("h7"));
    assert_eq!(store.contents().len(), 1);
    assert!(store.contains("h7"));
    assert!(!store.contains("h8"));
}

#[test]
fn blame_parse_reads_author_and_first_token() {
    let text = "abc123 1 1\nauthor Jane Doe\nauthor-mail <j@x>\nsummary fix\n";
    let a = parse_blame(text);
    assert_eq!(a.name.as_deref(), Some("Jane Doe"));
    assert_eq!(a.email.as_deref(), Some("<j@x>"));
    assert_eq!(a.commit_hash.as_deref(), Some("abc123"));
}

#[test]
fn blame_parse_falls_back_to_committer() {
    let text = "abc123 1 1\ncommitter Bob\ncommitter-mail <b@x>\n";
    let a = parse_blame(text);
    assert_eq!(a.name.as_deref(), Some("Bob"));
    assert_eq!(a.email.as_deref(), Some("<b@x>"));
}

#[test]
fn attribution_chain_prefers_blame_then_remote_then_null() {
    let remote = AttributionInfo {
        name: Some(String::from("Remote")),
        email: None,
        commit_hash: None,
    };
    let from_blame = resolve_attribution(Some("x 1\nauthor Jane\n"), Some(&remote));
    assert_eq!(from_blame.name.as_deref(), Some("Jane"));
    let from_remote = resolve_attribution(None, Some(&remote));
    assert_eq!(from_remote.name.as_deref(), Some("Remote"));
    let nothing = resolve_attribution(None, None);
    assert!(!nothing.is_resolved());
}

#[test]
fn report_entry_carries_context_and_tags() {
    let findings = vec![plain_finding()];
    let attrs = vec![AttributionInfo {
        name: Some(String::from("Jane")),
        email: None,
        commit_hash: Some(String::from("abc123")),
    }];
    let report = build_report(&findings, &attrs);
    assert_eq!(report.entries.len(), 1);
    let e = &report.entries[0];
    assert_eq!(e.rule_id, "rule-1");
    assert_eq!(e.location, "src/a.rs:10");
    assert_eq!(e.severity, "HIGH");
    assert_eq!(e.message, "dangerous call (committed by Jane in abc123)");
    assert_eq!(e.tags, vec![String::from("Jane"), String::from("SAST")]);
    let digest = format_digest(&report);
    assert_eq!(digest, "- rule-1 at src/a.rs:10 [HIGH]\n");
}
