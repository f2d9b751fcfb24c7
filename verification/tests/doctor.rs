use probe::detect::{detect_projects_at, FileState, RootListing};
use probe::diff::{build_report as build_diff, DiffValue};
use probe::doctor::{build_report, gate, is_required_tool_exec, DoctorIssue};
use probe::git::{git_state_from, GitOutputs};
use probe::scan::{assemble_scan, suggest_commands, LockfileInfo, ScanResult};
use probe::tools::ToolInfo;

fn listing() -> RootListing {
    RootListing {
        cargo_toml: FileState::Text("name = \"x\"\n".to_string()),
        package_json: FileState::Text("{\"name\":\"ui\"}".to_string()),
        pnpm_lock: false,
        yarn_lock: false,
        pyproject_toml: false,
        setup_py: false,
        requirements_txt: false,
        go_mod: FileState::Missing,
        tauri_cargo_toml: FileState::Missing,
    }
}

fn scan(status: &str, behind: &str, tools: Vec<ToolInfo>, stale: bool) -> ScanResult {
    let git = git_state_from(&GitOutputs {
        branch: Some("main".to_string()),
        head: Some("abc".to_string()),
        status: Some(status.to_string()),
        ahead_behind: Some(format!("0 {behind}")),
        log: None,
    });
    assemble_scan(
        "t".to_string(),
        "/r".to_string(),
        detect_projects_at("", &listing()),
        Some(git),
        tools,
        vec![],
        vec![LockfileInfo { path: "Cargo.lock".to_string(), hash: "h".to_string(), stale }],
    )
}

fn ok(name: &str) -> ToolInfo {
    ToolInfo { name: name.to_string(), version: Some("1.0".to_string()), available: true }
}

fn missing(name: &str) -> ToolInfo {
    ToolInfo { name: name.to_string(), version: None, available: false }
}

#[test]
fn required_tools() {
    for name in ["cargo", "rustc", "node", "npm", "pnpm", "yarn", "python3", "go"] {
        assert!(is_required_tool_exec(name));
    }
    assert!(!is_required_tool_exec("rustfmt"));
    assert!(!is_required_tool_exec("git"));
}

#[test]
fn ready_when_clean() {
    let d = build_report(&scan("", "0", vec![ok("git"), ok("cargo")], false));
    assert_eq!(d.status, "ready");
    assert_eq!(d.action_level, "validate");
    assert!(d.blockers.is_empty());
    assert!(d.warnings.is_empty());
    assert_eq!(d.schema_version, "probe.doctor.v1");
    let gates: Vec<(String, String)> =
        d.gates.iter().map(|g| (g.name.clone(), g.status.clone())).collect();
    assert_eq!(
        gates,
        vec![
            ("project".to_string(), "ok".to_string()),
            ("git_state".to_string(), "ok".to_string()),
            ("tools".to_string(), "ok".to_string()),
            ("lockfiles".to_string(), "ok".to_string()),
            ("commands".to_string(), "ok".to_string()),
            ("suite_tools".to_string(), "ok".to_string()),
        ]
    );
}

#[test]
fn caution_for_dirty_behind_stale_and_optional_tools() {
    let d = build_report(&scan(" M a\n?? b\n", "2", vec![ok("cargo"), missing("rustfmt")], true));
    assert_eq!(d.status, "caution");
    assert_eq!(d.action_level, "review");
    let codes: Vec<String> = d.warnings.iter().map(|w| w.code.clone()).collect();
    assert_eq!(codes, vec!["tool_unavailable", "lockfile_stale", "git_dirty", "git_behind"]);
    assert_eq!(d.warnings[2].detail, "1 dirty, 1 untracked");
    assert_eq!(d.warnings[3].detail, "2 commits behind upstream");
    assert_eq!(d.warnings[1].message, "Lockfile may be stale: Cargo.lock");
    let git_gate = d.gates.iter().find(|g| g.name == "git_state").unwrap();
    assert_eq!(git_gate.status, "review");
    assert_eq!(git_gate.summary, "Needs attention: git_dirty, git_behind");
    assert_eq!(git_gate.issue_codes, vec!["git_dirty".to_string(), "git_behind".to_string()]);
}

#[test]
fn blocked_when_a_required_tool_is_missing() {
    let d = build_report(&scan("", "0", vec![missing("cargo")], false));
    assert_eq!(d.status, "blocked");
    assert_eq!(d.action_level, "stop");
    assert_eq!(d.blockers.len(), 1);
    assert_eq!(d.blockers[0].code, "tool_missing");
    assert_eq!(d.blockers[0].message, "Required tool missing: cargo");
    let tools_gate = d.gates.iter().find(|g| g.name == "tools").unwrap();
    assert_eq!(tools_gate.status, "stop");
}

#[test]
fn gate_picks_worst_relevant_issue() {
    let issue = |code: &str| DoctorIssue {
        code: code.to_string(),
        message: String::new(),
        detail: String::new(),
    };
    let relevant = vec!["a".to_string(), "b".to_string()];
    let g = gate("g", &relevant, &vec![issue("c")], &vec![issue("b")], "fine".to_string());
    assert_eq!(g.status, "review");
    let g = gate("g", &relevant, &vec![issue("a")], &vec![issue("b")], "fine".to_string());
    assert_eq!(g.status, "stop");
    assert_eq!(g.issue_codes, vec!["a".to_string()]);
    let g = gate("g", &relevant, &vec![], &vec![issue("z")], "fine".to_string());
    assert_eq!(g.status, "ok");
    assert_eq!(g.summary, "fine");
}

#[test]
fn suggested_commands_match_argv() {
    let projects = detect_projects_at("web", &listing());
    for c in suggest_commands(&projects) {
        assert_eq!(c.cwd, "web");
        assert_eq!(c.command, format!("cd web && {}", c.argv.join(" ")));
    }
}

fn same(a: &DiffValue, b: &DiffValue) -> bool {
    match (a, b) {
        (DiffValue::Null, DiffValue::Null) => true,
        (DiffValue::Text(x), DiffValue::Text(y)) => x == y,
        (DiffValue::Count(x), DiffValue::Count(y)) => x == y,
        (DiffValue::Flag(x), DiffValue::Flag(y)) => x == y,
        _ => false,
    }
}

#[test]
fn every_change_shows_a_difference() {
    let base = scan("", "0", vec![ok("git"), ok("cargo")], false);
    let cur = scan(" M a\n", "1", vec![missing("cargo"), ok("npm")], true);
    let d = build_diff(&cur, &base, "b.json");
    assert!(!d.changes.is_empty());
    for c in &d.changes {
        assert!(!same(&c.before, &c.after), "{}", c.field);
    }
}
