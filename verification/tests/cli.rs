use probe::cli::{resolve_repo_from, Cli, Command, OutputFormat};
use probe::error::ProbeError;
use probe::snapshot::{
    join_path_exec, latest_snapshot_name, resolve_snapshot_path, snapshot_file_name,
    snapshots_dir,
};

#[test]
fn errors_have_codes_and_messages() {
    let v = ProbeError::Validation("bad".to_string());
    let io = ProbeError::Io("denied".to_string());
    let js = ProbeError::Json("eof".to_string());
    assert_eq!((v.exit_code(), io.exit_code(), js.exit_code()), (1, 2, 1));
    assert_eq!(v.error_code(), "validation_error");
    assert_eq!(io.error_code(), "io_error");
    assert_eq!(js.error_code(), "json_error");
    assert_eq!(v.message(), "bad");
    assert_eq!(io.message(), "io error: denied");
    assert_eq!(js.message(), "json error: eof");
}

#[test]
fn json_format_flag() {
    let json = Cli { repo: None, format: OutputFormat::Json, command: Command::Scan };
    let text = Cli { repo: None, format: OutputFormat::Text, command: Command::Doctor };
    assert!(json.is_json());
    assert!(!text.is_json());
}

#[test]
fn repo_resolution_order() {
    let flag = resolve_repo_from(Some("/given".to_string()), Some("/top\n".to_string()), Ok("/cwd".to_string()));
    assert!(matches!(flag, Ok(ref p) if p == "/given"));
    let top = resolve_repo_from(None, Some("  /top\n".to_string()), Ok("/cwd".to_string()));
    assert!(matches!(top, Ok(ref p) if p == "/top"));
    let cwd = resolve_repo_from(None, None, Ok("/cwd".to_string()));
    assert!(matches!(cwd, Ok(ref p) if p == "/cwd"));
    let err = resolve_repo_from(None, None, Err("gone".to_string()));
    assert!(matches!(err, Err(ProbeError::Io(ref m)) if m == "gone"));
}

#[test]
fn snapshot_names_and_paths() {
    assert_eq!(snapshot_file_name("20260622-033900"), "20260622-033900.json");
    assert_eq!(snapshots_dir("/repo"), "/repo/.agent-probe/snapshots");
    assert_eq!(snapshots_dir("/repo/"), "/repo/.agent-probe/snapshots");
    assert_eq!(join_path_exec("/repo", "/abs/x.json"), "/abs/x.json");
    let names = vec![
        "20260101-000000.json".to_string(),
        "notes.txt".to_string(),
        "20260622-033900.json".to_string(),
        "20260301-120000.json".to_string(),
        ".json".to_string(),
    ];
    assert_eq!(latest_snapshot_name(&names).as_deref(), Some("20260622-033900.json"));
    assert_eq!(latest_snapshot_name(&vec!["a.txt".to_string(), ".json".to_string()]), None);
}

#[test]
fn snapshot_resolution() {
    let latest = resolve_snapshot_path("/repo", "latest", Some("b.json".to_string()));
    assert!(matches!(latest, Ok(ref p) if p == "/repo/.agent-probe/snapshots/b.json"));
    let none = resolve_snapshot_path("/repo", "latest", None);
    assert!(matches!(
        none,
        Err(ProbeError::Validation(ref m)) if m == "No snapshots found; run `probe snapshot` first"
    ));
    let abs = resolve_snapshot_path("/repo", "/tmp/s.json", None);
    assert!(matches!(abs, Ok(ref p) if p == "/tmp/s.json"));
    let rel = resolve_snapshot_path("/repo", ".agent-probe/snapshots/legacy.json", None);
    assert!(matches!(rel, Ok(ref p) if p == "/repo/.agent-probe/snapshots/legacy.json"));
}
