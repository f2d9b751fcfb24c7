use probe::brief::{
    count_markers, detect_markers, doc_candidates, first_heading, first_paragraph, gather_docs,
    is_source_like, marker_paths, parse_bold_label, parse_project_md, parse_readme,
    section_first_line, section_headings, suite_names_in_state, truncate, unity_version, TodoWalk,
    HEADINGS_LIMIT, TODO_MAX_DEPTH, TODO_MAX_FILES,
};

fn pair(a: &str, b: &str) -> Option<(String, String)> {
    Some((a.to_string(), b.to_string()))
}

#[test]
fn bold_label_parses_house_style() {
    assert_eq!(parse_bold_label("**What:** A thing."), pair("What", "A thing."));
    assert_eq!(parse_bold_label("**Purpose:** Sandbox."), pair("Purpose", "Sandbox."));
    assert_eq!(parse_bold_label("**bold** text without a label"), None);
    assert_eq!(parse_bold_label("plain line"), None);
}

#[test]
fn markers_require_word_boundaries() {
    assert_eq!(count_markers("// TODO: x\n// FIXME y\nfoo\n"), 2);
    assert_eq!(count_markers("let TODOS = 1; // not a marker\n"), 0);
    assert_eq!(count_markers("TODO and FIXME on one line\n"), 1);
}

#[test]
fn readme_paragraph_skips_badges_and_headings() {
    let content = "# Title\n\n[![ci](x)](y)\n\nFirst line\nsecond line.\n\nNext para.\n";
    assert_eq!(
        first_paragraph(content).as_deref(),
        Some("First line second line.")
    );
}

#[test]
fn truncate_marks_cut() {
    assert_eq!(truncate("short", 10), "short");
    let long = "a".repeat(20);
    let cut = truncate(&long, 10);
    assert!(cut.ends_with('…'));
    assert_eq!(cut.chars().count(), 10);
}

#[test]
fn bold_label_variants() {
    assert_eq!(parse_bold_label("  **Status**: active  "), pair("Status", "active"));
    assert_eq!(parse_bold_label("**Tech:** :Rust"), pair("Tech", "Rust"));
    assert_eq!(parse_bold_label("**Status:**   "), None);
    assert_eq!(parse_bold_label("**:** value"), None);
    assert_eq!(parse_bold_label("**An overly long label text:** v"), None);
    // The limit counts bytes: twelve two-byte letters are 24 bytes.
    assert_eq!(parse_bold_label("**éééééééééééé:** v"), pair("éééééééééééé", "v"));
    assert_eq!(parse_bold_label("**ééééééééééééé:** v"), None);
}

#[test]
fn truncate_trims_and_drops_space_before_mark() {
    assert_eq!(truncate("  padded  ", 10), "padded");
    assert_eq!(truncate("abcd efgh", 6), "abcd…");
    assert_eq!(truncate("abc", 0), "…");
    assert_eq!(truncate("abcdef", 6), "abcdef");
}

#[test]
fn headings_and_sections() {
    let doc = "intro\n#NoSpace\n# Title  \n## One\ntext\n# Second\n## Two \n";
    assert_eq!(first_heading(doc).as_deref(), Some("Title"));
    assert_eq!(section_headings(doc), vec!["One".to_string(), "Two".to_string()]);
    assert_eq!(first_heading("no heading\n"), None);
    let many: String = (0..15).map(|i| format!("## H{i}\n")).collect();
    let hs = section_headings(&many);
    assert_eq!(hs.len(), HEADINGS_LIMIT);
    assert_eq!(hs[11], "H11");
}

#[test]
fn section_first_line_reads_named_section() {
    let doc = "# P\n## Last Updated\n\n# ignored heading\n  2026-01-01 by us  \n## Next\nother\n";
    assert_eq!(
        section_first_line(doc, "last updated").as_deref(),
        Some("2026-01-01 by us")
    );
    assert_eq!(section_first_line(doc, "missing"), None);
    assert_eq!(section_first_line("## Last updated\n## Other\nx\n", "last updated"), None);
}

#[test]
fn paragraph_skips_fences_and_html() {
    let doc = "```\ncode line\n```\n<p align=center>\n![img](x)\nReal text\n  continues  \n# Heading\n";
    assert_eq!(first_paragraph(doc).as_deref(), Some("Real text continues"));
    assert_eq!(first_paragraph("# Only headings\n\n"), None);
}

#[test]
fn project_md_front_matter() {
    let doc = "# Probe\n\n**What:** Preflight scanner.\n**Purpose:** ignored second.\n**Status:** Done\n**Stack**: Rust\n\n## Last updated\n2026-09-11\n\n## Layout\n";
    let p = parse_project_md(doc);
    assert_eq!(p.path, "PROJECT.md");
    assert_eq!(p.title.as_deref(), Some("Probe"));
    assert_eq!(p.what.as_deref(), Some("Preflight scanner."));
    assert_eq!(p.status.as_deref(), Some("Done"));
    assert_eq!(p.tech.as_deref(), Some("Rust"));
    assert_eq!(p.last_updated.as_deref(), Some("2026-09-11"));
    assert_eq!(p.headings, vec!["Last updated".to_string(), "Layout".to_string()]);
}

#[test]
fn readme_front_matter() {
    let r = parse_readme("# Tool\n\nDoes things.\n\n## Usage\n");
    assert_eq!(r.path, "README.md");
    assert_eq!(r.title.as_deref(), Some("Tool"));
    assert_eq!(r.summary.as_deref(), Some("Does things."));
    assert_eq!(r.headings, vec!["Usage".to_string()]);
}

#[test]
fn docs_list_present_candidates() {
    let names = doc_candidates();
    assert_eq!(names.len(), 5);
    let present = vec![true, true, false, false, true];
    let d = gather_docs(None, Some("# R\n".to_string()), &present);
    assert!(d.project_md.is_none());
    assert_eq!(d.readme.unwrap().title.as_deref(), Some("R"));
    assert_eq!(
        d.other,
        vec!["AGENTS.md".to_string(), "docs/".to_string(), ".agent-contract.toml".to_string()]
    );
}

#[test]
fn markers_with_unity_version() {
    assert_eq!(marker_paths().len(), 9);
    let mut present = vec![false; 9];
    present[0] = true;
    present[3] = true;
    let version = unity_version("m_Other: 1\nm_EditorVersion: 2022.3.1f1 \n");
    assert_eq!(version.as_deref(), Some("2022.3.1f1"));
    assert_eq!(
        detect_markers(&present, version),
        vec![
            "Unity 2022.3.1f1 (ProjectSettings/ProjectVersion.txt)".to_string(),
            "Dockerfile (Dockerfile)".to_string()
        ]
    );
    assert_eq!(
        detect_markers(&present, None)[0],
        "Unity project (ProjectSettings/ProjectVersion.txt)"
    );
    let mut only_make = vec![false; 9];
    only_make[1] = true;
    assert_eq!(
        detect_markers(&only_make, Some("6000".to_string())),
        vec!["Makefile (Makefile)".to_string()]
    );
}

#[test]
fn source_like_names() {
    assert!(is_source_like("main.rs"));
    assert!(is_source_like("NOTES.MD"));
    assert!(is_source_like("Makefile"));
    assert!(is_source_like("..md"));
    assert!(!is_source_like(".bashrc"));
    assert!(!is_source_like("photo.png"));
    assert!(!is_source_like("archive.tar.gz"));
    assert!(!is_source_like("LICENSE"));
}

#[test]
fn markers_count_each_line_once_and_respect_boundaries() {
    assert_eq!(count_markers("XXX\nXXXX\n_HACK_\nHACK-y\n"), 3);
    assert_eq!(count_markers(""), 0);
    assert_eq!(count_markers("fixme TODO2 aTODO"), 0);
}

#[test]
fn todo_walk_ranks_and_bounds() {
    let mut walk = TodoWalk::new(false);
    assert!(walk.enter_dir(TODO_MAX_DEPTH));
    assert!(!walk.truncated);
    assert!(walk.descends_into("src"));
    assert!(!walk.descends_into("node_modules"));
    assert!(TodoWalk::reads_file("lib.rs", Some(10)));
    assert!(!TodoWalk::reads_file("lib.rs", None));
    assert!(!TodoWalk::reads_file("lib.rs", Some(300 * 1024)));
    assert!(walk.has_room());
    walk.record_file("b.rs", Some("TODO\nTODO\n".to_string()));
    walk.record_file("a.rs", Some("// FIXME\n// HACK\n".to_string()));
    walk.record_file("sub\\c.rs", Some("XXX\n".to_string()));
    walk.record_file("clean.rs", Some("nothing\n".to_string()));
    walk.record_file("unreadable.rs", None);
    assert_eq!(walk.total(), Some(5));
    let brief = walk.finish();
    assert_eq!(brief.total, 5);
    assert_eq!(brief.files_scanned, 5);
    assert!(!brief.truncated);
    let top: Vec<(String, usize)> = brief
        .top_files
        .iter()
        .map(|f| (f.path.clone(), f.count))
        .collect();
    assert_eq!(
        top,
        vec![
            ("a.rs".to_string(), 2),
            ("b.rs".to_string(), 2),
            ("sub/c.rs".to_string(), 1)
        ]
    );
}

#[test]
fn todo_walk_stops_when_too_deep_or_full() {
    let mut walk = TodoWalk::new(true);
    assert!(!walk.enter_dir(TODO_MAX_DEPTH + 1));
    assert!(walk.truncated);
    assert!(!walk.descends_into("Library"));
    let mut full = TodoWalk::new(false);
    full.scanned = TODO_MAX_FILES;
    assert!(!full.has_room());
    assert!(full.truncated);
}

#[test]
fn todo_walk_keeps_five_files() {
    let mut walk = TodoWalk::new(false);
    for i in 0..7 {
        walk.record_file(&format!("f{i}.rs"), Some("TODO\n".repeat(i + 1)));
    }
    let brief = walk.finish();
    assert_eq!(brief.total, 28);
    let paths: Vec<String> = brief.top_files.iter().map(|f| f.path.clone()).collect();
    assert_eq!(paths, vec!["f6.rs", "f5.rs", "f4.rs", "f3.rs", "f2.rs"]);
}

#[test]
fn suite_names_by_state() {
    let tools = probe::tools::detect_suite_tools(&suite_probes());
    let linked = suite_names_in_state(&tools, "linked");
    let missing = suite_names_in_state(&tools, "missing");
    assert_eq!(linked, vec!["probe".to_string(), "switchboard".to_string()]);
    assert_eq!(missing.len(), 7);
}

fn suite_probes() -> Vec<probe::tools::SuiteProbe> {
    (0..9)
        .map(|i| probe::tools::SuiteProbe {
            version_output: if i == 0 || i == 4 { Some("x 1.2.3".to_string()) } else { None },
            help_ok: false,
            state_path_exists: i == 0,
        })
        .collect()
}
