//! The verified sides of the four scan tools, and the thin classes that
//! dispatch to them.
//!
//! Each tool's caller runs the scanner binary and hands its parsed
//! output here; the tool checks the shape, extracts what the pipeline
//! consumes, and merges it into the shared results document.
use vstd::prelude::*;
use crate::error::PipelineError;
use crate::finding::ScanKind;
use crate::json::{JsonValue, obj_take, set_key, set_key_post};
use crate::strutil::{spec_lines, split_lines};

verus! {

/// The scan a command line run selects.
#[derive(Clone, Copy, PartialEq, Eq, Structural, Debug)]
pub enum ScanCommand {
    Sast,
    Sca,
    Secret,
    LicenseCompliance,
}

/// Dispatches a selected scan command to its scan kind.
pub struct Scanner;

impl Scanner {
    pub fn new() -> (r: Scanner) {
        Scanner
    }

    /// The scan kind a command runs.
    pub fn execute_scan(&self, command: ScanCommand) -> (r: ScanKind)
        ensures
            command == ScanCommand::Sast ==> r == ScanKind::Sast,
            command == ScanCommand::Sca ==> r == ScanKind::Sca,
            command == ScanCommand::Secret ==> r == ScanKind::Secret,
            command == ScanCommand::LicenseCompliance ==> r == ScanKind::License,
    {
        match command {
            ScanCommand::Sast => self.run_sast_scan(),
            ScanCommand::Sca => self.run_sca_scan(),
            ScanCommand::Secret => self.run_secret_scan(),
            ScanCommand::LicenseCompliance => self.run_license_compliance_scan(),
        }
    }

    fn run_sast_scan(&self) -> (r: ScanKind)
        ensures
            r == ScanKind::Sast,
    {
        ScanKind::Sast
    }

    fn run_sca_scan(&self) -> (r: ScanKind)
        ensures
            r == ScanKind::Sca,
    {
        ScanKind::Sca
    }

    fn run_secret_scan(&self) -> (r: ScanKind)
        ensures
            r == ScanKind::Secret,
    {
        ScanKind::Secret
    }

    fn run_license_compliance_scan(&self) -> (r: ScanKind)
        ensures
            r == ScanKind::License,
    {
        ScanKind::License
    }
}

/// The verified side of the SAST tool.
pub struct SastTool;

impl SastTool {
    pub fn new() -> (r: SastTool) {
        SastTool
    }

    /// Merges a SAST scanner's parsed output into the results document:
    /// its `results` array becomes the document's `sast` section. Fails
    /// exactly when the output has no `results` array.
    pub fn run_scan(&self, scanner_output: JsonValue, doc: &mut JsonValue) -> (r: Result<
        (),
        PipelineError,
    >)
        ensures
            match scanner_output.spec_get("results"@) {
                Some(JsonValue::Arr(items)) => r is Ok && set_key_post(
                    *old(doc),
                    "sast"@,
                    JsonValue::Arr(items),
                    *final(doc),
                ),
                _ => r == Err::<(), PipelineError>(PipelineError::MalformedInput) && *final(doc)
                    == *old(doc),
            },
    {
        match obj_take(scanner_output, "results") {
            Some(v) => match v {
                JsonValue::Arr(items) => {
                    set_key(doc, "sast", JsonValue::Arr(items));
                    Ok(())
                },
                _ => Err(PipelineError::MalformedInput),
            },
            None => Err(PipelineError::MalformedInput),
        }
    }
}

/// Whether a parsed secret-scanner line is a detection: it carries
/// source metadata.
pub open spec fn secret_keep(v: JsonValue) -> bool {
    match v.spec_get("SourceMetadata"@) {
        Some(m) => !(m is Null),
        None => false,
    }
}

/// The detections among the scanner's output lines, in order: empty
/// lines are skipped, and every kept line parses as JSON and carries
/// source metadata; nothing when a non-empty line does not parse.
pub open spec fn secret_detections(lines: Seq<Seq<char>>) -> Option<Seq<JsonValue>>
    decreases lines.len(),
{
    if lines.len() == 0 {
        Some(Seq::empty())
    } else {
        match secret_detections(lines.drop_last()) {
            None => None,
            Some(p) => {
                let l = lines.last();
                if l.len() == 0 {
                    Some(p)
                } else {
                    match crate::json::spec_json_doc(l) {
                        None => None,
                        Some(v) => if secret_keep(v) {
                            Some(p.push(v))
                        } else {
                            Some(p)
                        },
                    }
                }
            },
        }
    }
}

proof fn lemma_secret_detections_none(lines: Seq<Seq<char>>, i: int)
    requires
        0 <= i < lines.len(),
        lines[i].len() > 0,
        crate::json::spec_json_doc(lines[i]) is None,
    ensures
        secret_detections(lines) is None,
    decreases lines.len(),
{
    if i < lines.len() - 1 {
        lemma_secret_detections_none(lines.drop_last(), i);
    }
}

/// The verified side of the secret-scanning tool.
pub struct SecretTool;

impl SecretTool {
    pub fn new() -> (r: SecretTool) {
        SecretTool
    }

    /// Filters a secret scanner's line-oriented output down to its
    /// detections and merges them into the results document as the
    /// `secret` section, an object holding the `results` array. Fails
    /// exactly when a non-empty output line is not JSON.
    pub fn run_scan(&self, tool_output: &str, doc: &mut JsonValue) -> (r: Result<
        (),
        PipelineError,
    >)
        ensures
            match secret_detections(spec_lines(tool_output@)) {
                Some(vs) => r is Ok && exists|sec: JsonValue|
                    #[trigger] set_key_post(*old(doc), "secret"@, sec, *final(doc)) && sec is Obj
                        && sec->Obj_0@.len() == 1 && sec->Obj_0@[0].0@ == "results"@
                        && sec->Obj_0@[0].1 is Arr && sec->Obj_0@[0].1->Arr_0@ == vs,
                None => r == Err::<(), PipelineError>(PipelineError::MalformedInput) && *final(doc)
                    == *old(doc),
            },
    {
        let lines = split_lines(tool_output);
        let ghost lm = lines.deep_view();
        let n = lines.len();
        let mut results: Vec<JsonValue> = Vec::new();
        let mut i: usize = 0;
        while i < n
            invariant
                lm == lines.deep_view(),
                lm == spec_lines(tool_output@),
                n == lines@.len(),
                lm.len() == n,
                i <= n,
                secret_detections(lm.take(i as int)) == Some(results@),
            decreases n - i,
        {
            proof {
                assert(lm.take(i + 1).drop_last() =~= lm.take(i as int));
                assert(lm.take(i + 1).last() == lm[i as int]);
                assert(lm[i as int] == lines@[i as int]@);
            }
            let line = &lines[i];
            if line.as_str().unicode_len() > 0 {
                match crate::json::json_from_text(line.as_str()) {
                    Some(v) => {
                        let keep = match v.get("SourceMetadata") {
                            Some(m) => !m.is_null(),
                            None => false,
                        };
                        if keep {
                            results.push(v);
                        }
                    },
                    None => {
                        proof {
                            lemma_secret_detections_none(lm, i as int);
                        }
                        return Err(PipelineError::MalformedInput);
                    },
                }
            }
            i += 1;
        }
        proof {
            assert(lm.take(n as int) =~= lm);
        }
        let mut sec = JsonValue::Obj(Vec::new());
        set_key(&mut sec, "results", JsonValue::Arr(results));
        let ghost secg = sec;
        proof {
            assert(secg->Obj_0@.len() == 1);
            assert(secg->Obj_0@[0].0@ == "results"@);
        }
        set_key(doc, "secret", sec);
        proof {
            assert(set_key_post(*old(doc), "secret"@, secg, *final(doc)));
        }
        Ok(())
    }
}

/// The language a dependency manifest file name implies.
#[derive(Clone, Copy, PartialEq, Eq, Structural, Debug)]
pub enum ManifestLang {
    Python,
    Javascript,
    PnpmJavascript,
    Maven,
    Gradle,
    Go,
}

/// The language of a manifest file name, when it is a known one.
pub open spec fn lang_of(file: Seq<char>) -> Option<ManifestLang> {
    if file == "requirements.txt"@ {
        Some(ManifestLang::Python)
    } else if file == "package.json"@ {
        Some(ManifestLang::Javascript)
    } else if file == "package-lock.json"@ {
        Some(ManifestLang::Javascript)
    } else if file == "pom.xml"@ {
        Some(ManifestLang::Maven)
    } else if file == "build.gradle"@ {
        Some(ManifestLang::Gradle)
    } else if file == "go.mod"@ {
        Some(ManifestLang::Go)
    } else if file == "pnpm-lock.yaml"@ {
        Some(ManifestLang::PnpmJavascript)
    } else {
        None
    }
}

pub open spec fn cd_prefix(folder: Seq<char>) -> Seq<char> {
    "cd "@ + folder + " && "@
}

/// The command that runs a per-language install script.
pub open spec fn script_cmd(folder: Seq<char>, dir: Seq<char>, name: Seq<char>) -> Seq<char> {
    cd_prefix(folder) + "sh "@ + dir + "/"@ + name
}

pub open spec fn pip_cmd(folder: Seq<char>, file: Seq<char>, args: Seq<char>) -> Seq<char> {
    cd_prefix(folder) + "pip install -r "@ + file + " "@ + args
}

pub open spec fn npm_cmd(folder: Seq<char>, args: Seq<char>) -> Seq<char> {
    cd_prefix(folder) + "npm install --force --ignore-scripts "@ + args
}

pub open spec fn pnpm_cmd(folder: Seq<char>, args: Seq<char>) -> Seq<char> {
    cd_prefix(folder) + "pnpm install --force --ignore-scripts "@ + args
}

pub open spec fn mvn_cmd(folder: Seq<char>, args: Seq<char>) -> Seq<char> {
    cd_prefix(folder) + "mvn install "@ + args
}

pub open spec fn gradle_cmd(folder: Seq<char>, args: Seq<char>) -> Seq<char> {
    cd_prefix(folder) + "gradle build "@ + args
}

/// The install commands one detected manifest gives rise to, in the
/// order they are to run. A file of no known language gives none.
pub open spec fn install_cmds_for(
    p: Seq<char>,
    script_dir: Seq<char>,
    has_python_script: bool,
    has_js_script: bool,
    has_java_script: bool,
    args: Seq<char>,
) -> Seq<Seq<char>> {
    let file = crate::strutil::file_name_of(p);
    let folder = crate::strutil::folder_of(p);
    match lang_of(file) {
        Some(ManifestLang::Python) => seq![pip_cmd(folder, file, args)] + (
        if has_python_script {
            seq![script_cmd(folder, script_dir, "python.sh"@)]
        } else {
            Seq::empty()
        }),
        Some(ManifestLang::Javascript) => (if has_js_script {
            seq![script_cmd(folder, script_dir, "javascript.sh"@)]
        } else {
            Seq::empty()
        }) + seq![npm_cmd(folder, args)],
        Some(ManifestLang::PnpmJavascript) => (if has_js_script {
            seq![script_cmd(folder, script_dir, "javascript.sh"@)]
        } else {
            Seq::empty()
        }) + seq![pnpm_cmd(folder, args)],
        Some(ManifestLang::Maven) => (if has_java_script {
            seq![script_cmd(folder, script_dir, "java.sh"@)]
        } else {
            Seq::empty()
        }) + seq![mvn_cmd(folder, args)],
        Some(ManifestLang::Gradle) => (if has_java_script {
            seq![script_cmd(folder, script_dir, "java.sh"@)]
        } else {
            Seq::empty()
        }) + seq![gradle_cmd(folder, args)],
        Some(ManifestLang::Go) => Seq::empty(),
        None => Seq::empty(),
    }
}

/// The install commands of all detected manifests, in order.
pub open spec fn spec_install_plan(
    detected: Seq<Seq<char>>,
    script_dir: Seq<char>,
    has_python_script: bool,
    has_js_script: bool,
    has_java_script: bool,
    args: Seq<char>,
) -> Seq<Seq<char>>
    decreases detected.len(),
{
    if detected.len() == 0 {
        Seq::empty()
    } else {
        spec_install_plan(
            detected.drop_last(),
            script_dir,
            has_python_script,
            has_js_script,
            has_java_script,
            args,
        ) + install_cmds_for(
            detected.last(),
            script_dir,
            has_python_script,
            has_js_script,
            has_java_script,
            args,
        )
    }
}

fn build_script_cmd(folder: &str, dir: &str, name: &str) -> (r: String)
    ensures
        r@ == script_cmd(folder@, dir@, name@),
{
    let mut s = String::from_str("cd ");
    s.append(folder);
    s.append(" && ");
    s.append("sh ");
    s.append(dir);
    s.append("/");
    s.append(name);
    proof {
        assert(s@ =~= script_cmd(folder@, dir@, name@));
    }
    s
}

fn build_tail_cmd(folder: &str, middle: &str, args: &str) -> (r: String)
    ensures
        r@ == cd_prefix(folder@) + middle@ + args@,
{
    let mut s = String::from_str("cd ");
    s.append(folder);
    s.append(" && ");
    s.append(middle);
    s.append(args);
    proof {
        assert(s@ =~= cd_prefix(folder@) + middle@ + args@);
    }
    s
}

/// The install commands one detected manifest gives rise to.
#[verifier::rlimit(60)]
fn install_cmds_for_exec(
    p: &str,
    script_dir: &str,
    has_python_script: bool,
    has_js_script: bool,
    has_java_script: bool,
    args: &str,
) -> (r: Vec<String>)
    ensures
        r.deep_view() == install_cmds_for(
            p@,
            script_dir@,
            has_python_script,
            has_js_script,
            has_java_script,
            args@,
        ),
{
    let (folder, file) = crate::strutil::split_path(p);
    proof {
        reveal_strlit("requirements.txt");
        reveal_strlit("package.json");
        reveal_strlit("package-lock.json");
        reveal_strlit("pom.xml");
        reveal_strlit("build.gradle");
        reveal_strlit("go.mod");
        reveal_strlit("pnpm-lock.yaml");
        assert("package.json"@[0] != "build.gradle"@[0]);
    }
    let ghost goal = install_cmds_for(
        p@,
        script_dir@,
        has_python_script,
        has_js_script,
        has_java_script,
        args@,
    );
    let mut r: Vec<String> = Vec::new();
    if crate::strutil::str_eq(file.as_str(), "requirements.txt") {
        let mut c = String::from_str("cd ");
        c.append(folder.as_str());
        c.append(" && ");
        c.append("pip install -r ");
        c.append(file.as_str());
        c.append(" ");
        c.append(args);
        proof {
            assert(c@ =~= pip_cmd(folder@, file@, args@));
        }
        r.push(c);
        if has_python_script {
            r.push(build_script_cmd(folder.as_str(), script_dir, "python.sh"));
        }
        proof {
            assert(goal.len() == (if has_python_script {
                2int
            } else {
                1int
            }));
            assert(goal[0] == pip_cmd(
                crate::strutil::folder_of(p@),
                crate::strutil::file_name_of(p@),
                args@,
            ));
            assert(r.deep_view()[0] == goal[0]);
            if has_python_script {
                assert(goal[1] == script_cmd(
                    crate::strutil::folder_of(p@),
                    script_dir@,
                    "python.sh"@,
                ));
                assert(r.deep_view()[1] == goal[1]);
            }
            assert(r.deep_view() =~= goal);
        }
    } else if crate::strutil::str_eq(file.as_str(), "package.json") || crate::strutil::str_eq(
        file.as_str(),
        "package-lock.json",
    ) {
        if has_js_script {
            r.push(build_script_cmd(folder.as_str(), script_dir, "javascript.sh"));
        }
        r.push(build_tail_cmd(folder.as_str(), "npm install --force --ignore-scripts ", args));
        proof {
            reveal_strlit("requirements.txt");
            reveal_strlit("package.json");
            reveal_strlit("package-lock.json");
            reveal_strlit("pom.xml");
            reveal_strlit("build.gradle");
            reveal_strlit("go.mod");
            reveal_strlit("pnpm-lock.yaml");
            assert("package.json"@[0] != "build.gradle"@[0]);
            assert(file@ == "package.json"@ || file@ == "package-lock.json"@ || file@
                == "pnpm-lock.yaml"@);
            assert(file@ == crate::strutil::file_name_of(p@));
            if file@ == "package.json"@ {
                assert(lang_of(crate::strutil::file_name_of(p@)) == Some(
                    ManifestLang::Javascript,
                ));
            } else {
                assert(file@ == "package-lock.json"@);
                assert(lang_of(crate::strutil::file_name_of(p@)) == Some(
                    ManifestLang::Javascript,
                ));
            }
            assert(goal.len() == (if has_js_script {
                2int
            } else {
                1int
            }));
            if has_js_script {
                assert(goal[0] == script_cmd(
                    crate::strutil::folder_of(p@),
                    script_dir@,
                    "javascript.sh"@,
                ));
                assert(goal[1] == npm_cmd(crate::strutil::folder_of(p@), args@));
                assert(r.deep_view()[0] == goal[0]);
                assert(r.deep_view()[1] == goal[1]);
            } else {
                assert(goal[0] == npm_cmd(crate::strutil::folder_of(p@), args@));
                assert(r.deep_view()[0] == goal[0]);
            }
            assert(r.deep_view() =~= goal);
        }
    } else if crate::strutil::str_eq(file.as_str(), "pnpm-lock.yaml") {
        if has_js_script {
            r.push(build_script_cmd(folder.as_str(), script_dir, "javascript.sh"));
        }
        r.push(build_tail_cmd(folder.as_str(), "pnpm install --force --ignore-scripts ", args));
        proof {
            reveal_strlit("requirements.txt");
            reveal_strlit("package.json");
            reveal_strlit("package-lock.json");
            reveal_strlit("pom.xml");
            reveal_strlit("build.gradle");
            reveal_strlit("go.mod");
            reveal_strlit("pnpm-lock.yaml");
            assert("package.json"@[0] != "build.gradle"@[0]);
            assert(file@ == crate::strutil::file_name_of(p@));
            assert("pnpm-lock.yaml"@ != "requirements.txt"@);
            assert("pnpm-lock.yaml"@ != "package.json"@);
            assert("pnpm-lock.yaml"@ != "package-lock.json"@);
            assert("pnpm-lock.yaml"@.len() == 14);
            assert("pom.xml"@.len() == 7);
            assert("go.mod"@.len() == 6);
            assert("pnpm-lock.yaml"@ != "pom.xml"@);
            assert("pnpm-lock.yaml"@ != "build.gradle"@);
            assert("pnpm-lock.yaml"@ != "go.mod"@);
            assert(lang_of("pnpm-lock.yaml"@) == Some(ManifestLang::PnpmJavascript));
            assert(lang_of(crate::strutil::file_name_of(p@)) == Some(
                ManifestLang::PnpmJavascript,
            ));
            assert(goal.len() == (if has_js_script {
                2int
            } else {
                1int
            }));
            if has_js_script {
                assert(goal[0] == script_cmd(
                    crate::strutil::folder_of(p@),
                    script_dir@,
                    "javascript.sh"@,
                ));
                assert(goal[1] == pnpm_cmd(crate::strutil::folder_of(p@), args@));
                assert(r.deep_view()[0] == goal[0]);
                assert(r.deep_view()[1] == goal[1]);
            } else {
                assert(goal[0] == pnpm_cmd(crate::strutil::folder_of(p@), args@));
                assert(r.deep_view()[0] == goal[0]);
            }
            assert(r.deep_view() =~= goal);
        }
    } else if crate::strutil::str_eq(file.as_str(), "pom.xml") {
        if has_java_script {
            r.push(build_script_cmd(folder.as_str(), script_dir, "java.sh"));
        }
        r.push(build_tail_cmd(folder.as_str(), "mvn install ", args));
        proof {
            reveal_strlit("requirements.txt");
            reveal_strlit("package.json");
            reveal_strlit("package-lock.json");
            reveal_strlit("pom.xml");
            reveal_strlit("build.gradle");
            reveal_strlit("go.mod");
            reveal_strlit("pnpm-lock.yaml");
            assert("package.json"@[0] != "build.gradle"@[0]);
            assert(goal.len() == (if has_java_script {
                2int
            } else {
                1int
            }));
            if has_java_script {
                assert(goal[0] == script_cmd(
                    crate::strutil::folder_of(p@),
                    script_dir@,
                    "java.sh"@,
                ));
                assert(goal[1] == mvn_cmd(crate::strutil::folder_of(p@), args@));
                assert(r.deep_view()[0] == goal[0]);
                assert(r.deep_view()[1] == goal[1]);
            } else {
                assert(goal[0] == mvn_cmd(crate::strutil::folder_of(p@), args@));
                assert(r.deep_view()[0] == goal[0]);
            }
            assert(r.deep_view() =~= goal);
        }
    } else if crate::strutil::str_eq(file.as_str(), "build.gradle") {
        if has_java_script {
            r.push(build_script_cmd(folder.as_str(), script_dir, "java.sh"));
        }
        r.push(build_tail_cmd(folder.as_str(), "gradle build ", args));
        proof {
            reveal_strlit("requirements.txt");
            reveal_strlit("package.json");
            reveal_strlit("package-lock.json");
            reveal_strlit("pom.xml");
            reveal_strlit("build.gradle");
            reveal_strlit("go.mod");
            reveal_strlit("pnpm-lock.yaml");
            assert("package.json"@[0] != "build.gradle"@[0]);
            assert(goal.len() == (if has_java_script {
                2int
            } else {
                1int
            }));
            if has_java_script {
                assert(goal[0] == script_cmd(
                    crate::strutil::folder_of(p@),
                    script_dir@,
                    "java.sh"@,
                ));
                assert(goal[1] == gradle_cmd(crate::strutil::folder_of(p@), args@));
                assert(r.deep_view()[0] == goal[0]);
                assert(r.deep_view()[1] == goal[1]);
            } else {
                assert(goal[0] == gradle_cmd(crate::strutil::folder_of(p@), args@));
                assert(r.deep_view()[0] == goal[0]);
            }
            assert(r.deep_view() =~= goal);
        }
    } else {
        proof {
            reveal_strlit("requirements.txt");
            reveal_strlit("package.json");
            reveal_strlit("package-lock.json");
            reveal_strlit("pom.xml");
            reveal_strlit("build.gradle");
            reveal_strlit("go.mod");
            reveal_strlit("pnpm-lock.yaml");
            assert("package.json"@[0] != "build.gradle"@[0]);
            assert(r.deep_view() =~= goal);
        }
    }
    proof {
        assert(r.deep_view() == goal);
    }
    r
}

/// The verified side of the dependency-vulnerability tool.
pub struct ScaTool;

/// The manifest file names whose lockfiles are scanned.
pub fn supported_manifests() -> (r: Vec<String>)
    ensures
        r.deep_view() =~= seq![
            "requirements.txt"@,
            "package-lock.json"@,
            "pom.xml"@,
            "pnpm-lock.yaml"@,
        ],
{
    let mut r: Vec<String> = Vec::new();
    r.push(String::from_str("requirements.txt"));
    r.push(String::from_str("package-lock.json"));
    r.push(String::from_str("pom.xml"));
    r.push(String::from_str("pnpm-lock.yaml"));
    r
}

/// The manifest file names that reveal a project's language.
pub fn detect_manifests() -> (r: Vec<String>)
    ensures
        r.deep_view() =~= seq![
            "requirements.txt"@,
            "package.json"@,
            "pom.xml"@,
            "pnpm-lock.yaml"@,
        ],
{
    let mut r: Vec<String> = Vec::new();
    r.push(String::from_str("requirements.txt"));
    r.push(String::from_str("package.json"));
    r.push(String::from_str("pom.xml"));
    r.push(String::from_str("pnpm-lock.yaml"));
    r
}

/// Whether one scanner output has the expected shape: a `results` array
/// whose first element, when there is one, is an object.
pub open spec fn osv_ok(osv: JsonValue) -> bool {
    match osv.spec_get("results"@) {
        Some(JsonValue::Arr(rs)) => rs@.len() == 0 || rs@[0] is Obj,
        _ => false,
    }
}

/// Whether every manifest's scanner output has the expected shape.
pub open spec fn manifests_ok(ms: Seq<(String, JsonValue)>) -> bool {
    forall|i: int| 0 <= i < ms.len() ==> osv_ok(#[trigger] ms[i].1)
}

/// The placeholder entry of a manifest without vulnerabilities: its
/// source and an empty package list.
pub open spec fn is_blank_entry(manifest: Seq<char>, v: JsonValue) -> bool {
    &&& v is Obj
    &&& v->Obj_0@.len() == 2
    &&& match v.spec_get("source"@) {
        Some(src) => {
            &&& (match src.spec_get("path"@) {
                Some(JsonValue::Str(s)) => s@ == manifest,
                _ => false,
            })
            &&& (match src.spec_get("type"@) {
                Some(JsonValue::Str(t)) => t@ == "lockfile"@,
                _ => false,
            })
        },
        None => false,
    }
    &&& match v.spec_get("packages"@) {
        Some(JsonValue::Arr(a)) => a@.len() == 0,
        _ => false,
    }
}

/// What one manifest's entry of the `sca` section must hold: the first
/// result of its scanner output, or the placeholder when it reported
/// nothing.
pub open spec fn sca_entry_ok(manifest: Seq<char>, osv: JsonValue, v: JsonValue) -> bool {
    match osv.spec_get("results"@) {
        Some(JsonValue::Arr(rs)) => if rs@.len() > 0 {
            v == rs@[0]
        } else {
            is_blank_entry(manifest, v)
        },
        _ => false,
    }
}

impl ScaTool {
    pub fn new() -> (r: ScaTool) {
        ScaTool
    }

    /// The commands that install the dependencies of the detected
    /// manifests, in order; the caller runs them. `script_dir` is where
    /// per-language install scripts live, and the three flags say which
    /// of them exist.
    pub fn install_project_dependencies(
        &self,
        detected: &Vec<String>,
        script_dir: &str,
        has_python_script: bool,
        has_js_script: bool,
        has_java_script: bool,
        build_args: &str,
    ) -> (r: Vec<String>)
        ensures
            r.deep_view() == spec_install_plan(
                detected.deep_view(),
                script_dir@,
                has_python_script,
                has_js_script,
                has_java_script,
                build_args@,
            ),
    {
        let ghost dm = detected.deep_view();
        let n = detected.len();
        let mut out: Vec<String> = Vec::new();
        let mut i: usize = 0;
        while i < n
            invariant
                dm == detected.deep_view(),
                n == detected@.len(),
                dm.len() == n,
                i <= n,
                out.deep_view() == spec_install_plan(
                    dm.take(i as int),
                    script_dir@,
                    has_python_script,
                    has_js_script,
                    has_java_script,
                    build_args@,
                ),
            decreases n - i,
        {
            proof {
                assert(dm.take(i + 1).drop_last() =~= dm.take(i as int));
                assert(dm.take(i + 1).last() == dm[i as int]);
                assert(dm[i as int] == detected@[i as int]@);
            }
            let mut cmds = install_cmds_for_exec(
                detected[i].as_str(),
                script_dir,
                has_python_script,
                has_js_script,
                has_java_script,
                build_args,
            );
            let ghost old_o = out.deep_view();
            let ghost add_o = cmds.deep_view();
            out.append(&mut cmds);
            proof {
                assert(out.deep_view() =~= old_o + add_o);
            }
            i += 1;
        }
        proof {
            assert(dm.take(n as int) =~= dm);
        }
        out
    }

    /// Merges the per-manifest scanner outputs into the results document
    /// as the `sca` section: one entry per manifest, holding the first
    /// result of its output, or a placeholder with an empty package list
    /// when it reported nothing. Fails exactly when an output has the
    /// wrong shape.
    pub fn run_scan(&self, manifests: Vec<(String, JsonValue)>, doc: &mut JsonValue) -> (r: Result<
        (),
        PipelineError,
    >)
        ensures
            manifests@.len() == 0 ==> r is Ok && *final(doc) == *old(doc),
            manifests@.len() > 0 && manifests_ok(manifests@) ==> r is Ok && (exists|
                sec: JsonValue,
            |
                #[trigger] set_key_post(*old(doc), "sca"@, sec, *final(doc)) && sec is Obj
                    && sec->Obj_0@.len() == manifests@.len() && (forall|i: int|
                    0 <= i < manifests@.len() ==> (#[trigger] sec->Obj_0@[i].0@
                        == manifests@[i].0@ && sca_entry_ok(
                        manifests@[i].0@,
                        manifests@[i].1,
                        sec->Obj_0@[i].1,
                    )))),
            !manifests_ok(manifests@) ==> r == Err::<(), PipelineError>(
                PipelineError::MalformedInput,
            ) && *final(doc) == *old(doc),
    {
        let ghost ms = manifests@;
        let mut rest = manifests;
        let n = rest.len();
        if n == 0 {
            // No manifest was scanned: the results document stays as it
            // is, with no sca section written.
            return Ok(());
        }
        let mut entries: Vec<(String, JsonValue)> = Vec::new();
        let mut i: usize = 0;
        while i < n
            invariant
                ms == manifests@,
                n == ms.len(),
                i <= n,
                rest@ =~= ms.skip(i as int),
                entries@.len() == i,
                forall|j: int|
                    0 <= j < i ==> (#[trigger] entries@[j].0@ == ms[j].0@ && sca_entry_ok(
                        ms[j].0@,
                        ms[j].1,
                        entries@[j].1,
                    )),
                forall|j: int| 0 <= j < i ==> osv_ok(#[trigger] ms[j].1),
            decreases n - i,
        {
            proof {
                assert(rest@[0] == ms[i as int]);
            }
            let (name, osv) = rest.remove(0);
            proof {
                assert(rest@ =~= ms.skip(i + 1));
                assert(name == ms[i as int].0);
                assert(osv == ms[i as int].1);
            }
            let rs = match obj_take(osv, "results") {
                Some(v) => match v {
                    JsonValue::Arr(rs) => rs,
                    _ => {
                        proof {
                            assert(!osv_ok(ms[i as int].1));
                            assert(!manifests_ok(ms));
                        }
                        return Err(PipelineError::MalformedInput);
                    },
                },
                None => {
                    proof {
                        assert(!osv_ok(ms[i as int].1));
                        assert(!manifests_ok(ms));
                    }
                    return Err(PipelineError::MalformedInput);
                },
            };
            if rs.len() > 0 {
                let ghost rs0 = rs@;
                let mut rs = rs;
                let first = rs.remove(0);
                proof {
                    assert(first == rs0[0]);
                }
                let is_obj = match &first {
                    JsonValue::Obj(_) => true,
                    _ => false,
                };
                if !is_obj {
                    proof {
                        assert(!osv_ok(ms[i as int].1));
                        assert(!manifests_ok(ms));
                    }
                    return Err(PipelineError::MalformedInput);
                }
                entries.push((name, first));
            } else {
                proof {
                    reveal_strlit("path");
                    reveal_strlit("type");
                    reveal_strlit("source");
                    reveal_strlit("packages");
                    assert("path"@ != "type"@) by {
                        assert("path"@[0] != "type"@[0]);
                    }
                    assert("source"@ != "packages"@) by {
                        assert("source"@.len() != "packages"@.len());
                    }
                }
                let mut source = JsonValue::Obj(Vec::new());
                set_key(&mut source, "path", JsonValue::Str(name.clone()));
                let ghost s1 = source;
                set_key(&mut source, "type", JsonValue::Str(String::from_str("lockfile")));
                let ghost s2 = source;
                proof {
                    let e1 = s1->Obj_0@;
                    let e2 = s2->Obj_0@;
                    assert(e1.len() == 1 && e1[0].0@ == "path"@);
                    assert(e1[0].1 == JsonValue::Str(name));
                    assert(!crate::json::has_key(e1, "type"@));
                    assert(e2.len() == 2);
                    assert(e2[0] == e2.take(1)[0]);
                    assert(e2[0] == e1[0]);
                    assert(e2[1].0@ == "type"@ && (e2[1].1 matches JsonValue::Str(t) && t@
                        == "lockfile"@));
                    reveal_with_fuel(crate::json::obj_lookup, 3);
                    assert(crate::json::obj_lookup(e2, "path"@) == Some(e1[0].1));
                    assert(e2.skip(1)[0] == e2[1]);
                    assert(crate::json::obj_lookup(e2, "type"@) == Some(e2[1].1));
                }
                let mut blank = JsonValue::Obj(Vec::new());
                let ghost sourceg = source;
                set_key(&mut blank, "source", source);
                let ghost b1 = blank;
                set_key(&mut blank, "packages", JsonValue::Arr(Vec::new()));
                proof {
                    let f1 = b1->Obj_0@;
                    let f2 = blank->Obj_0@;
                    assert(f1.len() == 1 && f1[0].0@ == "source"@ && f1[0].1 == sourceg);
                    assert(!crate::json::has_key(f1, "packages"@));
                    assert(f2.len() == 2);
                    assert(f2[0] == f2.take(1)[0]);
                    assert(f2[0] == f1[0]);
                    assert(f2[1].0@ == "packages"@ && (f2[1].1 matches JsonValue::Arr(a)
                        && a@.len() == 0));
                    reveal_with_fuel(crate::json::obj_lookup, 3);
                    assert(crate::json::obj_lookup(f2, "source"@) == Some(sourceg));
                    assert(f2.skip(1)[0] == f2[1]);
                    assert(crate::json::obj_lookup(f2, "packages"@) == Some(f2[1].1));
                    assert(is_blank_entry(name@, blank));
                }
                entries.push((name, blank));
            }
            i += 1;
        }
        let sec = JsonValue::Obj(entries);
        let ghost secg = sec;
        set_key(doc, "sca", sec);
        proof {
            assert(manifests_ok(ms));
            assert(set_key_post(*old(doc), "sca"@, secg, *final(doc)));
        }
        Ok(())
    }
}

/// Nothing when an element of a component's license array is malformed;
/// else the license ids it names, in order.
pub open spec fn license_ids_of(ls: Seq<JsonValue>) -> Option<Seq<Seq<char>>>
    decreases ls.len(),
{
    if ls.len() == 0 {
        Some(Seq::empty())
    } else {
        match license_ids_of(ls.drop_last()) {
            None => None,
            Some(p) => match ls.last().spec_get("license"@) {
                Some(JsonValue::Obj(inner)) => match crate::json::obj_lookup(inner@, "id"@) {
                    Some(JsonValue::Str(s)) => Some(p.push(s@)),
                    Some(_) => None,
                    None => Some(p),
                },
                _ => None,
            },
        }
    }
}

/// The license record of one component: its `name@version` key and the
/// license ids it declares; nothing when its license list is malformed.
pub open spec fn component_entry(c: JsonValue) -> Option<(Seq<char>, Seq<Seq<char>>)> {
    let key = crate::normalize::str_or(c.spec_get("name"@), "unknown"@) + "@"@
        + crate::normalize::str_or(c.spec_get("version"@), "unknown"@);
    match c.spec_get("licenses"@) {
        Some(JsonValue::Arr(ls)) => match license_ids_of(ls@) {
            Some(ids) => Some((key, ids)),
            None => None,
        },
        _ => None,
    }
}

/// The license records of a component list, in order.
pub open spec fn components_list(cs: Seq<JsonValue>) -> Option<Seq<(Seq<char>, Seq<Seq<char>>)>>
    decreases cs.len(),
{
    if cs.len() == 0 {
        Some(Seq::empty())
    } else {
        match (components_list(cs.drop_last()), component_entry(cs.last())) {
            (Some(a), Some(b)) => Some(a.push(b)),
            _ => None,
        }
    }
}

/// What a dependency-graph document maps to: one license record per
/// component of its `components` array.
pub open spec fn spec_component_licenses(doc: JsonValue) -> Option<
    Seq<(Seq<char>, Seq<Seq<char>>)>,
> {
    match doc.spec_get("components"@) {
        Some(JsonValue::Arr(cs)) => components_list(cs@),
        _ => None,
    }
}

proof fn lemma_license_ids_none(ls: Seq<JsonValue>, i: int)
    requires
        0 <= i < ls.len(),
        match ls[i].spec_get("license"@) {
            Some(JsonValue::Obj(inner)) => match crate::json::obj_lookup(inner@, "id"@) {
                Some(JsonValue::Str(_)) => false,
                Some(_) => true,
                None => false,
            },
            _ => true,
        },
    ensures
        license_ids_of(ls) is None,
    decreases ls.len(),
{
    if i < ls.len() - 1 {
        lemma_license_ids_none(ls.drop_last(), i);
    }
}

proof fn lemma_components_none(cs: Seq<JsonValue>, i: int)
    requires
        0 <= i < cs.len(),
        component_entry(cs[i]) is None,
    ensures
        components_list(cs) is None,
    decreases cs.len(),
{
    if i < cs.len() - 1 {
        lemma_components_none(cs.drop_last(), i);
    }
}

/// The verified side of the license-compliance tool.
pub struct LicenseTool;

impl LicenseTool {
    pub fn new() -> (r: LicenseTool) {
        LicenseTool
    }

    /// Extracts, per component of a dependency-graph document, its
    /// `name@version` key and declared license ids. Fails exactly when
    /// the document's shape is wrong.
    pub fn run_scan(&self, components_doc: &JsonValue) -> (r: Result<
        Vec<(String, Vec<String>)>,
        PipelineError,
    >)
        ensures
            match spec_component_licenses(*components_doc) {
                Some(m) => (r matches Ok(v) && v.deep_view() == m),
                None => r == Err::<Vec<(String, Vec<String>)>, PipelineError>(
                    PipelineError::MalformedInput,
                ),
            },
    {
        let cs = match components_doc.get("components") {
            Some(x) => match x.as_arr() {
                Some(a) => a,
                None => {
                    return Err(PipelineError::MalformedInput);
                },
            },
            None => {
                return Err(PipelineError::MalformedInput);
            },
        };
        let n = cs.len();
        let mut out: Vec<(String, Vec<String>)> = Vec::new();
        let mut i: usize = 0;
        while i < n
            invariant
                components_doc.spec_get("components"@) == Some(JsonValue::Arr(*cs)),
                n == cs@.len(),
                i <= n,
                components_list(cs@.take(i as int)) == Some(out.deep_view()),
            decreases n - i,
        {
            proof {
                assert(cs@.take(i + 1).drop_last() =~= cs@.take(i as int));
                assert(cs@.take(i + 1).last() == cs@[i as int]);
            }
            let c = &cs[i];
            let mut key = crate::normalize::str_field(Some(c), "name", "unknown");
            key.append("@");
            let version = crate::normalize::str_field(Some(c), "version", "unknown");
            key.append(version.as_str());
            let ls = match c.get("licenses") {
                Some(x) => match x.as_arr() {
                    Some(a) => a,
                    None => {
                        proof {
                            lemma_components_none(cs@, i as int);
                        }
                        return Err(PipelineError::MalformedInput);
                    },
                },
                None => {
                    proof {
                        lemma_components_none(cs@, i as int);
                    }
                    return Err(PipelineError::MalformedInput);
                },
            };
            let ln = ls.len();
            let mut ids: Vec<String> = Vec::new();
            let mut j: usize = 0;
            while j < ln
                invariant
                    components_doc.spec_get("components"@) == Some(JsonValue::Arr(*cs)),
                    n == cs@.len(),
                    i < n,
                    cs@[i as int].spec_get("licenses"@) == Some(JsonValue::Arr(*ls)),
                    ln == ls@.len(),
                    j <= ln,
                    license_ids_of(ls@.take(j as int)) == Some(ids.deep_view()),
                decreases ln - j,
            {
                proof {
                    assert(ls@.take(j + 1).drop_last() =~= ls@.take(j as int));
                    assert(ls@.take(j + 1).last() == ls@[j as int]);
                }
                match ls[j].get("license") {
                    Some(inner) => match inner.as_obj() {
                        Some(ie) => {
                            match inner.get("id") {
                                Some(idv) => match idv.as_str() {
                                    Some(s) => {
                                        ids.push(s.clone());
                                        proof {
                                            assert(ids.deep_view() =~= license_ids_of(
                                                ls@.take(j + 1),
                                            ).unwrap());
                                        }
                                    },
                                    None => {
                                        proof {
                                            lemma_license_ids_none(ls@, j as int);
                                            lemma_components_none(cs@, i as int);
                                        }
                                        return Err(PipelineError::MalformedInput);
                                    },
                                },
                                None => {},
                            }
                        },
                        None => {
                            proof {
                                lemma_license_ids_none(ls@, j as int);
                                lemma_components_none(cs@, i as int);
                            }
                            return Err(PipelineError::MalformedInput);
                        },
                    },
                    None => {
                        proof {
                            lemma_license_ids_none(ls@, j as int);
                            lemma_components_none(cs@, i as int);
                        }
                        return Err(PipelineError::MalformedInput);
                    },
                }
                j += 1;
            }
            proof {
                assert(ls@.take(ln as int) =~= ls@);
            }
            out.push((key, ids));
            proof {
                assert(out.deep_view() =~= components_list(cs@.take(i + 1)).unwrap());
            }
            i += 1;
        }
        proof {
            assert(cs@.take(n as int) =~= cs@);
        }
        Ok(out)
    }
}

/// The SAST scan's thin front.
pub struct Sast {
    sast_tool: SastTool,
}

impl Sast {
    pub fn new() -> (r: Sast) {
        Sast { sast_tool: SastTool::new() }
    }

    /// Merges a SAST scanner's parsed output into the results document.
    pub fn run_scan(&self, scanner_output: JsonValue, doc: &mut JsonValue) -> (r: Result<
        (),
        PipelineError,
    >)
        ensures
            match scanner_output.spec_get("results"@) {
                Some(JsonValue::Arr(items)) => r is Ok && set_key_post(
                    *old(doc),
                    "sast"@,
                    JsonValue::Arr(items),
                    *final(doc),
                ),
                _ => r == Err::<(), PipelineError>(PipelineError::MalformedInput) && *final(doc)
                    == *old(doc),
            },
    {
        self.sast_tool.run_scan(scanner_output, doc)
    }
}

/// The dependency-vulnerability scan's thin front.
pub struct Sca {
    sca_tool: ScaTool,
}

impl Sca {
    pub fn new() -> (r: Sca) {
        Sca { sca_tool: ScaTool::new() }
    }

    /// Merges the per-manifest scanner outputs into the results
    /// document.
    pub fn run_scan(&self, manifests: Vec<(String, JsonValue)>, doc: &mut JsonValue) -> (r: Result<
        (),
        PipelineError,
    >)
        ensures
            manifests@.len() == 0 ==> r is Ok && *final(doc) == *old(doc),
            manifests@.len() > 0 && manifests_ok(manifests@) ==> r is Ok && (exists|
                sec: JsonValue,
            |
                #[trigger] set_key_post(*old(doc), "sca"@, sec, *final(doc)) && sec is Obj
                    && sec->Obj_0@.len() == manifests@.len() && (forall|i: int|
                    0 <= i < manifests@.len() ==> (#[trigger] sec->Obj_0@[i].0@
                        == manifests@[i].0@ && sca_entry_ok(
                        manifests@[i].0@,
                        manifests@[i].1,
                        sec->Obj_0@[i].1,
                    )))),
            !manifests_ok(manifests@) ==> r == Err::<(), PipelineError>(
                PipelineError::MalformedInput,
            ) && *final(doc) == *old(doc),
    {
        self.sca_tool.run_scan(manifests, doc)
    }
}

/// The secret scan's thin front.
pub struct Secret {
    secret_tool: SecretTool,
}

impl Secret {
    pub fn new() -> (r: Secret) {
        Secret { secret_tool: SecretTool::new() }
    }

    /// Filters a secret scanner's output into the results document.
    pub fn run_scan(&self, tool_output: &str, doc: &mut JsonValue) -> (r: Result<
        (),
        PipelineError,
    >)
        ensures
            match secret_detections(spec_lines(tool_output@)) {
                Some(vs) => r is Ok && exists|sec: JsonValue|
                    #[trigger] set_key_post(*old(doc), "secret"@, sec, *final(doc)) && sec is Obj
                        && sec->Obj_0@.len() == 1 && sec->Obj_0@[0].0@ == "results"@
                        && sec->Obj_0@[0].1 is Arr && sec->Obj_0@[0].1->Arr_0@ == vs,
                None => r == Err::<(), PipelineError>(PipelineError::MalformedInput) && *final(doc)
                    == *old(doc),
            },
    {
        self.secret_tool.run_scan(tool_output, doc)
    }
}

/// The license-compliance scan's thin front.
pub struct LicenseCompliance {
    license_tool: LicenseTool,
}

impl LicenseCompliance {
    pub fn new() -> (r: LicenseCompliance) {
        LicenseCompliance { license_tool: LicenseTool::new() }
    }

    /// Extracts the per-component license records of a dependency-graph
    /// document.
    pub fn run_scan(&self, components_doc: &JsonValue) -> (r: Result<
        Vec<(String, Vec<String>)>,
        PipelineError,
    >)
        ensures
            match spec_component_licenses(*components_doc) {
                Some(m) => (r matches Ok(v) && v.deep_view() == m),
                None => r == Err::<Vec<(String, Vec<String>)>, PipelineError>(
                    PipelineError::MalformedInput,
                ),
            },
    {
        self.license_tool.run_scan(components_doc)
    }
}

/// Holds one tool per scan type.
pub struct ScanRunner {
    pub sast_tool: SastTool,
    pub sca_tool: ScaTool,
    pub secret_tool: SecretTool,
    pub license_tool: LicenseTool,
}

impl ScanRunner {
    pub fn new(
        sast_tool: SastTool,
        sca_tool: ScaTool,
        secret_tool: SecretTool,
        license_tool: LicenseTool,
    ) -> (r: ScanRunner) {
        ScanRunner { sast_tool, sca_tool, secret_tool, license_tool }
    }
}

} // verus!
