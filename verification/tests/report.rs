use probe::brief::{build_report as build_brief, BriefSources, SentinelBrief, TodoWalk};
use probe::detect::{detect_projects_at, FileState, RootListing};
use probe::doctor::build_report as build_doctor;
use probe::git::{git_state_from, GitOutputs};
use probe::report::{render_brief_text, render_doctor_text, render_scan_text, text_of_lines};
use probe::scan::{assemble_scan, LockfileInfo, ScanResult};
use probe::tools::{detect_suite_tools, SuiteProbe, ToolInfo};

fn sample_scan(hash: &str) -> ScanResult {
    let listing = RootListing {
        cargo_toml: FileState::Text("[package]\nname = \"sample\"\n".to_string()),
        package_json: FileState::Missing,
        pnpm_lock: false,
        yarn_lock: false,
        pyproject_toml: false,
        setup_py: false,
        requirements_txt: false,
        go_mod: FileState::Missing,
        tauri_cargo_toml: FileState::Missing,
    };
    let git = git_state_from(&GitOutputs {
        branch: Some("main\n".to_string()),
        head: Some("abc1234\n".to_string()),
        status: Some(String::new()),
        ahead_behind: Some("0 0".to_string()),
        log: Some("abc1234|first|me|2026-01-01T00:00:00Z\n".to_string()),
    });
    let probes: Vec<SuiteProbe> = (0..9)
        .map(|i| SuiteProbe {
            version_output: if i == 0 { Some("probe 0.1.0".to_string()) } else { None },
            help_ok: false,
            state_path_exists: i == 0,
        })
        .collect();
    assemble_scan(
        "2026-01-01T00:00:00Z".to_string(),
        "/repo".to_string(),
        detect_projects_at("", &listing),
        Some(git),
        vec![
            ToolInfo { name: "git".to_string(), version: Some("2.40.0".to_string()), available: true },
            ToolInfo { name: "cargo".to_string(), version: None, available: false },
        ],
        detect_suite_tools(&probes),
        vec![LockfileInfo { path: "Cargo.lock".to_string(), hash: hash.to_string(), stale: true }],
    )
}

#[test]
fn lines_end_with_newlines() {
    let ls = vec![vec!['a'], vec![], vec!['b', 'c']];
    assert_eq!(text_of_lines(&ls), "a\n\nbc\n");
}

#[test]
fn scan_text_layout() {
    let text = render_scan_text(&sample_scan("0123456789abcdef"));
    assert!(text.starts_with(
        "probe scan: /repo\n  Schema: probe.scan.v1\n\n  Projects:\n    rust \"sample\" (Cargo.toml)\n\n  Git: main @ abc1234\n    Recent:\n      abc1234 first\n\n  Tools:\n    ✓ git 2.40.0\n    ✗ cargo (not found)\n\n  Agent suite:\n    ✓ probe — project preflight and drift scanner [linked] (.agent-probe)\n"
    ));
    assert!(text.contains("  Lockfiles:\n    Cargo.lock (01234567) [STALE]\n\n"));
    assert!(text.ends_with(
        "  Commands:\n    check → `cargo check` [high]\n    test → `cargo test` [high]\n    build → `cargo build` [high]\n"
    ));
}

#[test]
fn scan_text_short_hash_kept_whole() {
    let text = render_scan_text(&sample_scan("abc"));
    assert!(text.contains("    Cargo.lock (abc) [STALE]\n"));
}

#[test]
fn doctor_text_layout() {
    let scan = sample_scan("0123456789abcdef");
    let doctor = build_doctor(&scan);
    assert_eq!(doctor.status, "blocked");
    let text = render_doctor_text(&doctor);
    assert!(text.starts_with("probe doctor: blocked (/repo)\n  Action: stop\n\n  Gates:\n"));
    assert!(text.contains("  Blockers:\n    [tool_missing] "));
    assert!(text.contains("  Recommended commands:\n    check -> `cargo check` [high] — Rust manifest detected\n"));
    assert!(text.contains("\n  Suite tools:\n    ✓ probe [linked]\n    ✗ latch [missing]\n"));
}

fn sources(todos: probe::brief::TodoBrief) -> BriefSources {
    let mut markers = vec![false; 9];
    markers[1] = true;
    BriefSources {
        timestamp: "2026-01-01T00:00:00Z".to_string(),
        dir_name: Some("repo".to_string()),
        project_md: Some("# Repo\n**What:** A sample.\n## Notes\n".to_string()),
        readme: Some("# Readme\n\nIgnored summary.\n".to_string()),
        docs_present: vec![true, false, false, false, false],
        markers_present: markers,
        unity_version_file: None,
        status_output: Some(" M src/lib.rs\n".to_string()),
        commit_count_output: Some("42\n".to_string()),
        todos,
        sentinel: Some(SentinelBrief { tracked_files: 3, high_risk: 1, medium_risk: 0 }),
    }
}

#[test]
fn brief_report_and_text() {
    let scan = sample_scan("0123456789abcdef");
    let mut walk = TodoWalk::new(false);
    walk.record_file("src/lib.rs", Some("// TODO\n".to_string()));
    let brief = build_brief(&scan, sources(walk.finish()));
    assert_eq!(brief.schema_version, "probe.brief.v1");
    assert_eq!(brief.name, "repo");
    assert_eq!(brief.projects[0].name.as_deref(), Some("sample"));
    let git = brief.git.as_ref().unwrap();
    assert_eq!(git.commit_count, Some(42));
    assert_eq!(git.changed_files.len(), 1);
    assert_eq!(git.changed_files[0].path, "src/lib.rs");
    assert_eq!(brief.tools.missing, vec!["cargo".to_string()]);
    assert_eq!(brief.tools.available, vec!["git".to_string()]);
    assert_eq!(brief.lockfiles.tracked_count, 1);
    assert_eq!(brief.lockfiles.stale, vec!["Cargo.lock".to_string()]);
    assert_eq!(brief.suite_tools.linked, vec!["probe".to_string()]);
    let text = render_brief_text(&brief);
    assert!(text.starts_with("probe brief: repo (/repo)\n\n  What: A sample.\n  Docs: PROJECT.md [Notes] · README.md · AGENTS.md\n\n  Stack: rust \"sample\" (Cargo.toml)\n  Markers: Makefile (Makefile)\n  Git: main @ abc1234 — clean, 42 commits\n    Changed: M src/lib.rs\n    Recent:\n      abc1234 first\n\n  Health: blocked (stop)\n"));
    assert!(text.contains("  Missing tools: cargo\n  Stale lockfiles: Cargo.lock\n  TODO markers: 1 across 1 files scanned — src/lib.rs ×1\n"));
    assert!(text.contains("  Sentinel: 3 tracked, 1 high-risk, 0 medium-risk\n\n  Run:\n    check    cargo check  [high]\n"));
    assert!(text.ends_with("\n  Detail: probe scan · probe doctor\n"));
}

#[test]
fn brief_name_falls_back_to_repo() {
    let scan = sample_scan("x");
    let mut src = sources(TodoWalk::new(false).finish());
    src.dir_name = Some(String::new());
    let brief = build_brief(&scan, src);
    assert_eq!(brief.name, "repo");
    let text = render_brief_text(&brief);
    assert!(text.contains("  TODO markers: none in 0 files scanned\n"));
}
