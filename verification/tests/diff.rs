use probe::detect::{detect_projects_at, FileState, RootListing};
use probe::diff::{build_report, diff_projects, summarize, DiffChange, DiffValue};
use probe::git::{git_state_from, GitOutputs, GitState};
use probe::report::render_diff_text;
use probe::scan::{assemble_scan, LockfileInfo, ScanResult};
use probe::tools::{detect_suite_tools, SuiteProbe, ToolInfo};

fn rust_listing() -> RootListing {
    RootListing {
        cargo_toml: FileState::Text("[package]\nname = \"sample\"\n".to_string()),
        package_json: FileState::Missing,
        pnpm_lock: false,
        yarn_lock: false,
        pyproject_toml: false,
        setup_py: false,
        requirements_txt: false,
        go_mod: FileState::Missing,
        tauri_cargo_toml: FileState::Missing,
    }
}

fn git(branch: &str, status: &str) -> GitState {
    git_state_from(&GitOutputs {
        branch: Some(format!("{branch}\n")),
        head: Some("abc1234\n".to_string()),
        status: Some(status.to_string()),
        ahead_behind: Some("0\t0\n".to_string()),
        log: Some("abc1234|first|me|2026-01-01T00:00:00Z\n".to_string()),
    })
}

fn tool(name: &str, version: Option<&str>) -> ToolInfo {
    ToolInfo {
        name: name.to_string(),
        version: version.map(|v| v.to_string()),
        available: version.is_some(),
    }
}

fn suite(linked_probe: bool) -> Vec<probe::tools::SuiteToolInfo> {
    let probes: Vec<SuiteProbe> = (0..9)
        .map(|i| SuiteProbe {
            version_output: if i == 0 { Some("probe 0.1.0".to_string()) } else { None },
            help_ok: false,
            state_path_exists: i == 0 && linked_probe,
        })
        .collect();
    detect_suite_tools(&probes)
}

fn scan(
    stamp: &str,
    git_state: Option<GitState>,
    tools: Vec<ToolInfo>,
    hash: &str,
    linked: bool,
) -> ScanResult {
    assemble_scan(
        stamp.to_string(),
        "/repo".to_string(),
        detect_projects_at("", &rust_listing()),
        git_state,
        tools,
        suite(linked),
        vec![LockfileInfo { path: "Cargo.lock".to_string(), hash: hash.to_string(), stale: false }],
    )
}

fn baseline() -> ScanResult {
    scan(
        "2026-01-01T00:00:00Z",
        Some(git("main", "")),
        vec![tool("git", Some("2.40.0")), tool("cargo", Some("1.79.0"))],
        "aaaa",
        true,
    )
}

#[test]
fn same_state_has_no_drift() {
    let base = baseline();
    let cur = scan(
        "2026-01-02T00:00:00Z",
        Some(git("main", "")),
        vec![tool("git", Some("2.40.0")), tool("cargo", Some("1.79.0"))],
        "aaaa",
        true,
    );
    let report = build_report(&cur, &base, "/repo/.agent-probe/snapshots/x.json");
    assert!(report.changes.is_empty());
    assert_eq!(report.summary.changes, 0);
    assert_eq!(report.baseline_timestamp, "2026-01-01T00:00:00Z");
    assert_eq!(report.current_timestamp, "2026-01-02T00:00:00Z");
    let text = render_diff_text(&report);
    assert!(text.contains("probe diff: /repo"));
    assert!(text.contains("No drift detected."));
}

#[test]
fn lockfile_hash_drift_is_a_warning() {
    let base = baseline();
    let cur = scan(
        "t",
        Some(git("main", "")),
        vec![tool("git", Some("2.40.0")), tool("cargo", Some("1.79.0"))],
        "bbbb",
        true,
    );
    let report = build_report(&cur, &base, "b.json");
    assert_eq!(report.changes.len(), 1);
    let c = &report.changes[0];
    assert_eq!(c.kind, "lockfile");
    assert_eq!(c.field, "Cargo.lock.hash");
    assert_eq!(c.severity, "warning");
    assert_eq!(c.message, "Lockfile hash changed: Cargo.lock");
    assert!(matches!(&c.before, DiffValue::Text(h) if h == "aaaa"));
    assert!(matches!(&c.after, DiffValue::Text(h) if h == "bbbb"));
    assert_eq!(report.summary.warnings, 1);
}

#[test]
fn tool_loss_is_a_blocker_and_counts_add_up() {
    let base = baseline();
    let cur = scan(
        "t",
        Some(git("dev", " M src/lib.rs\n?? new.txt\n")),
        vec![tool("git", Some("2.41.0")), tool("cargo", None), tool("rustfmt", Some("1.7.0"))],
        "aaaa",
        true,
    );
    let report = build_report(&cur, &base, "b.json");
    let fields: Vec<(String, String)> = report
        .changes
        .iter()
        .map(|c| (c.field.clone(), c.severity.clone()))
        .collect();
    assert_eq!(
        fields,
        vec![
            ("git.branch".to_string(), "warning".to_string()),
            ("git.dirty_count".to_string(), "warning".to_string()),
            ("git.untracked_count".to_string(), "warning".to_string()),
            ("cargo.available".to_string(), "blocker".to_string()),
            ("cargo.version".to_string(), "warning".to_string()),
            ("git.version".to_string(), "warning".to_string()),
            ("rustfmt".to_string(), "info".to_string()),
        ]
    );
    let s = &report.summary;
    assert_eq!((s.changes, s.blockers, s.warnings, s.info), (7, 1, 5, 1));
    assert_eq!(s.blockers + s.warnings + s.info, s.changes);
    let again = summarize(&report.changes);
    assert_eq!(again.changes, 7);
    let text = render_diff_text(&report);
    assert!(text.contains("  Summary: 7 changes, 1 blockers, 5 warnings, 1 info\n"));
    assert!(text.contains("  [blocker] tool cargo.available: Tool availability changed: cargo\n"));
}

#[test]
fn suite_tool_linkage_drift_is_reported() {
    let base = baseline();
    let cur = scan(
        "t",
        Some(git("main", "")),
        vec![tool("git", Some("2.40.0")), tool("cargo", Some("1.79.0"))],
        "aaaa",
        false,
    );
    let report = build_report(&cur, &base, "b.json");
    assert_eq!(report.changes.len(), 1);
    assert_eq!(report.changes[0].kind, "suite_tool");
    assert_eq!(report.changes[0].field, "probe.initialized");
    assert_eq!(report.changes[0].severity, "warning");
}

#[test]
fn git_and_projects_appearing() {
    let mut base = baseline();
    base.git = None;
    base.projects = Vec::new();
    base.suggested_commands = Vec::new();
    let cur = baseline();
    let report = build_report(&cur, &base, "b.json");
    let kinds: Vec<(String, String)> = report
        .changes
        .iter()
        .map(|c| (c.kind.clone(), c.message.clone()))
        .collect();
    assert_eq!(kinds[0], ("project".to_string(), "Project added: rust at . (Cargo.toml)".to_string()));
    assert_eq!(kinds[1], ("git".to_string(), "Git repository detected".to_string()));
    assert!(kinds
        .iter()
        .any(|(k, m)| k == "command" && m == "Suggested command added: cargo test"));
    assert!(report.changes.iter().all(|c| c.severity == "warning" || c.severity == "info"));
}

fn project(kind: &str, root: &str, manifest: &str) -> probe::detect::DetectedProject {
    probe::detect::DetectedProject {
        kind: kind.to_string(),
        root: root.to_string(),
        manifest: manifest.to_string(),
        metadata: probe::detect::ProjectMetadata { name: None, package_manager: None, module: None },
    }
}

fn text_of(v: &DiffValue) -> Option<String> {
    match v {
        DiffValue::Text(t) => Some(t.clone()),
        _ => None,
    }
}

fn pairs(changes: &[DiffChange], swap: bool) -> Vec<(Option<String>, Option<String>)> {
    let mut v: Vec<(Option<String>, Option<String>)> = changes
        .iter()
        .map(|c| {
            if swap {
                (text_of(&c.after), text_of(&c.before))
            } else {
                (text_of(&c.before), text_of(&c.after))
            }
        })
        .collect();
    v.sort();
    v
}

#[test]
fn project_diff_reads_the_same_both_ways() {
    let a = vec![project("rust", ".", "Cargo.toml"), project("node", "web", "web/package.json")];
    let b = vec![project("rust", ".", "Cargo.toml"), project("go", "svc", "svc/go.mod")];
    let forward = diff_projects(&a, &b);
    let backward = diff_projects(&b, &a);
    assert_eq!(forward.len(), 2);
    assert_eq!(backward.len(), 2);
    assert_eq!(pairs(&forward, false), pairs(&backward, true));
    for c in forward.iter().chain(backward.iter()) {
        assert_eq!(c.kind, "project");
        assert_eq!(c.severity, "warning");
        assert_eq!(c.field, "projects");
    }
    assert_eq!(forward[0].message, "Project removed: go at svc (svc/go.mod)");
    assert_eq!(forward[1].message, "Project added: node at web (web/package.json)");
    assert_eq!(backward[0].message, "Project removed: node at web (web/package.json)");
    assert_eq!(backward[1].message, "Project added: go at svc (svc/go.mod)");
}

#[test]
fn project_diff_empty_for_same_keys_in_another_order() {
    let a = vec![project("rust", ".", "Cargo.toml"), project("node", "web", "web/package.json")];
    let b = vec![project("node", "web", "web/package.json"), project("rust", ".", "Cargo.toml")];
    assert!(diff_projects(&a, &b).is_empty());
    assert!(diff_projects(&b, &a).is_empty());
}
