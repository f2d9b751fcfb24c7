use probe::detect::{
    detect_projects, detect_projects_at, discover_nested_project_roots, display_root_exec,
    extract_go_module, extract_toml_value, project_manifest_names, rel_manifest_exec,
    node_project_from, should_skip_dir_exec, FileState, NestedDir, NestedWalk, RootListing,
    RootScan, NESTED_MAX_DEPTH,
};
use probe::git::{
    parse_ahead_behind, parse_branch, parse_changed_files, parse_commit_count, parse_dirty_counts,
    parse_head_sha, parse_recent_commits,
};
use probe::scan::{
    assemble_scan, command, detect_lockfiles, detect_manifest_for, hash_bytes, is_lockfile_stale,
    lockfile_candidates, shell_text_exec, suggest_commands, LockfileCandidate, LockfileObservation,
};
use probe::tools::{
    detect_suite_tools, detect_tools, extract_version, plan_tool_checks, suite_tool_definitions,
    tool_info_from_output, SuiteProbe,
};

fn empty_listing() -> RootListing {
    RootListing {
        cargo_toml: FileState::Missing,
        package_json: FileState::Missing,
        pnpm_lock: false,
        yarn_lock: false,
        pyproject_toml: false,
        setup_py: false,
        requirements_txt: false,
        go_mod: FileState::Missing,
        tauri_cargo_toml: FileState::Missing,
    }
}

#[test]
fn toml_and_go_values() {
    let toml = "[package]\n  name = \"demo\" \nversion=\"1\"\n";
    assert_eq!(extract_toml_value(toml, "name").as_deref(), Some("demo"));
    assert_eq!(extract_toml_value(toml, "version").as_deref(), Some("1"));
    assert_eq!(extract_toml_value(toml, "edition"), None);
    assert_eq!(
        extract_go_module("// c\nmodule example.com/x  \n").as_deref(),
        Some("example.com/x")
    );
    assert_eq!(extract_go_module(" module indented\n"), None);
}

#[test]
fn roots_and_manifests() {
    assert_eq!(display_root_exec(""), ".");
    assert_eq!(display_root_exec("apps\\web"), "apps/web");
    assert_eq!(rel_manifest_exec("", "Cargo.toml"), "Cargo.toml");
    assert_eq!(rel_manifest_exec("app", "Cargo.toml"), "app/Cargo.toml");
    assert!(should_skip_dir_exec(".git"));
    assert!(should_skip_dir_exec("node_modules"));
    assert!(!should_skip_dir_exec("src"));
    assert_eq!(project_manifest_names().len(), 6);
}

#[test]
fn node_project_reads_name_and_package_manager() {
    let mut l = empty_listing();
    l.package_json = FileState::Text("{\"name\": \"web\", \"private\": true}".to_string());
    l.pnpm_lock = true;
    let ps = detect_projects_at("app", &l);
    assert_eq!(ps.len(), 1);
    assert_eq!(ps[0].kind, "node");
    assert_eq!(ps[0].root, "app");
    assert_eq!(ps[0].manifest, "app/package.json");
    assert_eq!(ps[0].metadata.name.as_deref(), Some("web"));
    assert_eq!(ps[0].metadata.package_manager.as_deref(), Some("pnpm"));
    let cmds = suggest_commands(&ps);
    assert_eq!(cmds[0].command, "cd app && pnpm install");
    assert_eq!(cmds[0].cwd, "app");
    assert_eq!(cmds[0].argv, vec!["pnpm".to_string(), "install".to_string()]);
}

#[test]
fn invalid_package_json_still_detects_node() {
    let mut l = empty_listing();
    l.package_json = FileState::Text("not json".to_string());
    let ps = detect_projects_at("", &l);
    assert_eq!(ps.len(), 1);
    assert_eq!(ps[0].metadata.name, None);
    assert_eq!(ps[0].metadata.package_manager, None);
}

#[test]
fn projects_sorted_and_deduplicated() {
    let mut rust = empty_listing();
    rust.cargo_toml = FileState::Text("name = \"core\"\n".to_string());
    rust.pyproject_toml = true;
    rust.requirements_txt = true;
    let roots = vec![
        RootScan { rel_root: "b".to_string(), listing: empty_listing() },
        RootScan { rel_root: String::new(), listing: rust },
    ];
    let ps = detect_projects(&roots);
    let ids: Vec<(String, String, String)> = ps
        .iter()
        .map(|p| (p.root.clone(), p.kind.clone(), p.manifest.clone()))
        .collect();
    assert_eq!(
        ids,
        vec![
            (".".to_string(), "python".to_string(), "pyproject.toml".to_string()),
            (".".to_string(), "rust".to_string(), "Cargo.toml".to_string()),
        ]
    );
}

#[test]
fn nested_roots_skip_tauri_runtime() {
    let dirs = vec![
        NestedDir { rel_root: "app".to_string(), has_manifest: true },
        NestedDir { rel_root: "app/src-tauri".to_string(), has_manifest: true },
        NestedDir { rel_root: "docs".to_string(), has_manifest: false },
    ];
    assert_eq!(discover_nested_project_roots(&dirs), vec!["app".to_string()]);
}

#[test]
fn shell_text_prefixes_cd_for_nested_roots() {
    let argv = vec!["npm".to_string(), "run".to_string(), "build".to_string()];
    assert_eq!(shell_text_exec("app", &argv), "cd app && npm run build");
    assert_eq!(shell_text_exec(".", &argv), "npm run build");
    let c = command("app", "build", argv, "medium", "why");
    assert_eq!(c.command, "cd app && npm run build");
    assert_eq!(c.cwd, "app");
}

#[test]
fn lockfiles_hash_and_staleness() {
    assert_eq!(hash_bytes(b""), "e3b0c44298fc1c14");
    assert_eq!(hash_bytes(b"abc"), "ba7816bf8f01cfea");
    assert_eq!(detect_manifest_for("go.sum"), "go.mod");
    assert_eq!(detect_manifest_for("other.lock"), "");
    assert!(is_lockfile_stale("Cargo.toml", Some(1), Some(2)));
    assert!(!is_lockfile_stale("Cargo.toml", Some(2), Some(2)));
    assert!(!is_lockfile_stale("", Some(1), Some(2)));
    assert!(!is_lockfile_stale("Cargo.toml", None, Some(2)));

    let mut l = empty_listing();
    l.cargo_toml = FileState::Text("name = \"x\"\n".to_string());
    let ps = detect_projects_at("crate", &l);
    let cands = lockfile_candidates(&ps);
    assert_eq!(cands.len(), 1);
    assert_eq!(cands[0].filename, "Cargo.lock");
    assert_eq!(cands[0].project_root, "crate");
    let obs = vec![LockfileObservation {
        candidate: LockfileCandidate {
            filename: cands[0].filename.clone(),
            project_root: cands[0].project_root.clone(),
        },
        exists: true,
        contents: Some(b"abc".to_vec()),
        lock_modified: Some(5),
        manifest_modified: Some(9),
    }];
    let infos = detect_lockfiles(&obs);
    assert_eq!(infos.len(), 1);
    assert_eq!(infos[0].path, "crate/Cargo.lock");
    assert_eq!(infos[0].hash, "ba7816bf8f01cfea");
    assert!(infos[0].stale);
}

#[test]
fn tool_versions_and_plan() {
    assert_eq!(extract_version("rustc 1.79.0 (129f3b996 2024-06-10)"), "1.79.0");
    assert_eq!(extract_version("v20.11.0\nextra"), "20.11.0");
    assert_eq!(extract_version("no version here"), "no version here");
    let t = tool_info_from_output("node", &Some("v20.11.0\n".to_string()));
    assert_eq!(t.version.as_deref(), Some("20.11.0"));
    assert!(t.available);
    assert!(!tool_info_from_output("go", &None).available);

    let mut l = empty_listing();
    l.cargo_toml = FileState::Text("name = \"x\"\n".to_string());
    let ps = detect_projects_at("", &l);
    let checks = plan_tool_checks(&ps);
    let names: Vec<String> = checks.iter().map(|c| c.name.clone()).collect();
    assert_eq!(names, vec!["git", "rustc", "cargo", "rustfmt", "clippy"]);
    let outputs = vec![Some("git version 2.40.0".to_string()), None, None, None, None];
    let tools = detect_tools(&checks, &outputs);
    assert_eq!(tools[0].version.as_deref(), Some("2.40.0"));
    assert!(!tools[4].available);
}

#[test]
fn suite_tool_states() {
    let defs = suite_tool_definitions();
    assert_eq!(defs.len(), 9);
    let probes: Vec<SuiteProbe> = (0..9)
        .map(|i| SuiteProbe {
            version_output: None,
            help_ok: i < 5,
            state_path_exists: false,
        })
        .collect();
    let tools = detect_suite_tools(&probes);
    assert_eq!(tools[0].state, "available");
    assert!(tools[0].installed);
    assert_eq!(tools[0].version, None);
    assert_eq!(tools[4].name, "switchboard");
    assert_eq!(tools[4].state, "linked");
    assert_eq!(tools[5].state, "missing");
}

#[test]
fn git_outputs_parse() {
    assert_eq!(parse_branch(&Some("  feature/x\n".to_string())), "feature/x");
    assert_eq!(parse_branch(&Some("\n".to_string())), "HEAD");
    assert_eq!(parse_branch(&None), "HEAD");
    assert_eq!(parse_head_sha(&None), "");
    assert_eq!(parse_dirty_counts(&Some(" M a\n?? b\n?? c\n\nD  d\n".to_string())), (2, 2));
    assert_eq!(parse_ahead_behind(&Some("3\t+1\n".to_string())), (Some(3), Some(1)));
    assert_eq!(parse_ahead_behind(&Some("3".to_string())), (None, None));
    assert_eq!(parse_ahead_behind(&Some("x 2".to_string())), (None, Some(2)));
    assert_eq!(parse_commit_count(&Some(" 17 \n".to_string())), Some(17));
    assert_eq!(parse_commit_count(&Some("many".to_string())), None);
    let commits = parse_recent_commits(&Some("a1|fix: x|me|2026|extra\nbad line\n".to_string()));
    assert_eq!(commits.len(), 1);
    assert_eq!(commits[0].message, "fix: x");
    assert_eq!(commits[0].date, "2026|extra");
    let (files, truncated) = parse_changed_files(&Some("?? a\n M b\nxx\n".to_string()), 1);
    assert_eq!(files.len(), 1);
    assert_eq!(files[0].status, "??");
    assert_eq!(files[0].path, "a");
    assert!(truncated);
}

#[test]
fn assembled_scan_suggests_commands() {
    let mut l = empty_listing();
    l.go_mod = FileState::Text("module m\n".to_string());
    let ps = detect_projects_at("", &l);
    let s = assemble_scan("t".to_string(), "/r".to_string(), ps, None, vec![], vec![], vec![]);
    assert_eq!(s.schema_version, "probe.scan.v1");
    let cmds: Vec<String> = s.suggested_commands.iter().map(|c| c.command.clone()).collect();
    assert_eq!(cmds, vec!["go build ./...".to_string(), "go test ./...".to_string()]);
    assert_eq!(s.projects[0].metadata.module.as_deref(), Some("m"));
}

#[test]
fn node_project_from_parsed_fields() {
    let ps = node_project_from("web", Some(Some("site".to_string())), Some(None), false, true);
    assert_eq!(ps.len(), 1);
    assert_eq!(ps[0].kind, "node");
    assert_eq!(ps[0].root, "web");
    assert_eq!(ps[0].manifest, "web/package.json");
    assert_eq!(ps[0].metadata.name.as_deref(), Some("site"));
    assert_eq!(ps[0].metadata.package_manager.as_deref(), Some("yarn"));

    let unnamed = node_project_from("", Some(None), None, false, false);
    assert_eq!(unnamed.len(), 1);
    assert_eq!(unnamed[0].metadata.name, None);
    assert_eq!(unnamed[0].metadata.package_manager.as_deref(), Some("npm"));

    let not_json = node_project_from("", None, None, true, false);
    assert_eq!(not_json.len(), 1);
    assert_eq!(not_json[0].metadata.name, None);
    assert_eq!(not_json[0].metadata.package_manager, None);

    let unity_package =
        node_project_from("Packages/tool", Some(Some("com.x.tool".to_string())), Some(Some("2022.3".to_string())), false, false);
    assert!(unity_package.is_empty());
}

#[test]
fn unity_package_manifest_is_not_a_node_project() {
    let mut l = empty_listing();
    l.package_json =
        FileState::Text("{\"name\": \"com.x.tool\", \"unity\": \"2022.3\"}".to_string());
    assert!(detect_projects_at("Packages/tool", &l).is_empty());
}

#[test]
fn nested_walk_depth_and_skips() {
    let plain = NestedWalk::new(false);
    assert!(plain.enter_dir(0));
    assert!(plain.enter_dir(NESTED_MAX_DEPTH - 1));
    assert!(!plain.enter_dir(NESTED_MAX_DEPTH));
    assert!(plain.descends_into("Library"));
    assert!(plain.descends_into("src"));
    assert!(!plain.descends_into("node_modules"));
    assert!(!plain.descends_into(".git"));
    let unity = NestedWalk::new(true);
    assert!(!unity.descends_into("Library"));
    assert!(unity.descends_into("Temp"));
    assert!(!unity.descends_into("node_modules"));
    assert!(unity.descends_into("Assets"));
}

#[test]
fn lockfile_staleness_before_the_epoch() {
    assert!(is_lockfile_stale("package.json", Some(-2_000_000_000), Some(-1_000_000_000)));
    assert!(!is_lockfile_stale("package.json", Some(-1_000_000_000), Some(-2_000_000_000)));
    assert!(is_lockfile_stale("go.mod", Some(-1), Some(0)));
}
