//! Project stack detection: which manifests a directory holds, and what the
//! project at that root is called.
use vstd::prelude::*;

use crate::order::{btree_order, last_key_order};
use crate::text::{
    chars_eq, chars_of, ends_with, ends_with_exec, extend_str, lemma_char_deep_view, lines,
    lines_exec, lit, replace_char, replace_char_exec, split_once, split_once_exec, starts_with,
    starts_with_exec, str_eq, string_of, trim, trim_char, trim_char_exec, trim_exec,
    trim_start_str, trim_start_str_exec,
};

verus! {

broadcast use vstd::string::group_string_axioms;

/// What a look at one file found.
pub enum FileState {
    /// The file does not exist.
    Missing,
    /// The file exists but could not be read as text.
    Unreadable,
    /// The file's text.
    Text(String),
}

/// The view of a `FileState`.


pub enum FileView {
    Missing,
    Unreadable,
    Text(Seq<char>),
}

impl View for FileState {
    type V = FileView;

    open spec fn view(&self) -> FileView {
        match self {
            FileState::Missing => FileView::Missing,
            FileState::Unreadable => FileView::Unreadable,
            FileState::Text(t) => FileView::Text(t@),
        }
    }
}

/// The manifest files found directly under one project root.
pub struct RootListing {
    pub cargo_toml: FileState,
    pub package_json: FileState,
    pub pnpm_lock: bool,
    pub yarn_lock: bool,
    pub pyproject_toml: bool,
    pub setup_py: bool,
    pub requirements_txt: bool,
    pub go_mod: FileState,
    pub tauri_cargo_toml: FileState,
}

/// The view of a `RootListing`.


pub struct RootListingView {
    pub cargo_toml: FileView,
    pub package_json: FileView,
    pub pnpm_lock: bool,
    pub yarn_lock: bool,
    pub pyproject_toml: bool,
    pub setup_py: bool,
    pub requirements_txt: bool,
    pub go_mod: FileView,
    pub tauri_cargo_toml: FileView,
}

impl View for RootListing {
    type V = RootListingView;

    open spec fn view(&self) -> RootListingView {
        RootListingView {
            cargo_toml: self.cargo_toml@,
            package_json: self.package_json@,
            pnpm_lock: self.pnpm_lock,
            yarn_lock: self.yarn_lock,
            pyproject_toml: self.pyproject_toml,
            setup_py: self.setup_py,
            requirements_txt: self.requirements_txt,
            go_mod: self.go_mod@,
            tauri_cargo_toml: self.tauri_cargo_toml@,
        }
    }
}

/// One candidate project root: its path relative to the repository, with
/// `/` between components and the empty string for the repository itself,
/// and what it holds.
pub struct RootScan {
    pub rel_root: String,
    pub listing: RootListing,
}

/// The view of a `RootScan`.


pub struct RootScanView {
    pub rel_root: Seq<char>,
    pub listing: RootListingView,
}

impl View for RootScan {
    type V = RootScanView;

    open spec fn view(&self) -> RootScanView {
        RootScanView { rel_root: self.rel_root@, listing: self.listing@ }
    }
}

impl DeepView for RootScan {
    type V = RootScanView;

    open spec fn deep_view(&self) -> RootScanView {
        self@
    }
}

/// What the manifest says about a project.
pub struct ProjectMetadata {
    pub name: Option<String>,
    pub package_manager: Option<String>,
    pub module: Option<String>,
}

/// The view of a `ProjectMetadata`.


pub struct MetadataView {
    pub name: Option<Seq<char>>,
    pub package_manager: Option<Seq<char>>,
    pub module: Option<Seq<char>>,
}

impl View for ProjectMetadata {
    type V = MetadataView;

    open spec fn view(&self) -> MetadataView {
        MetadataView {
            name: self.name.deep_view(),
            package_manager: self.package_manager.deep_view(),
            module: self.module.deep_view(),
        }
    }
}

/// A detected project stack.
pub struct DetectedProject {
    pub kind: String,
    pub root: String,
    pub manifest: String,
    pub metadata: ProjectMetadata,
}

/// The view of a `DetectedProject`.


pub struct ProjectView {
    pub kind: Seq<char>,
    pub root: Seq<char>,
    pub manifest: Seq<char>,
    pub metadata: MetadataView,
}

impl View for DetectedProject {
    type V = ProjectView;

    open spec fn view(&self) -> ProjectView {
        ProjectView {
            kind: self.kind@,
            root: self.root@,
            manifest: self.manifest@,
            metadata: self.metadata@,
        }
    }
}

impl DeepView for DetectedProject {
    type V = ProjectView;

    open spec fn deep_view(&self) -> ProjectView {
        self@
    }
}

/// Metadata with no entries.
pub open spec fn no_metadata() -> MetadataView {
    MetadataView { name: None, package_manager: None, module: None }
}

// ---------------------------------------------------------------------------
// Paths
// ---------------------------------------------------------------------------

/// How a relative root is shown: `.` for the repository itself.
pub open spec fn display_root(rel: Seq<char>) -> Seq<char> {
    if rel.len() == 0 {
        "."@
    } else {
        replace_char(rel, '\\', '/')
    }
}

/// `rel` joined with `name` as `Path::join` joins relative components.
pub open spec fn join_rel(rel: Seq<char>, name: Seq<char>) -> Seq<char> {
    if rel.len() == 0 {
        name
    } else {
        rel + "/"@ + name
    }
}

/// A manifest's path relative to the repository, with `/` separators.
pub open spec fn rel_manifest(rel: Seq<char>, manifest: Seq<char>) -> Seq<char> {
    if rel.len() == 0 {
        manifest
    } else {
        replace_char(join_rel(rel, manifest), '\\', '/')
    }
}

/// How a relative root is shown: `.` for the repository itself.
pub fn display_root_exec(rel: &str) -> (r: String)
    ensures
        r@ == display_root(rel@),
{
    let c = chars_of(rel);
    if c.len() == 0 {
        lit(".")
    } else {
        let v = replace_char_exec(c.as_slice(), '\\', '/');
        string_of(v.as_slice())
    }
}

/// `rel` joined with `name`.
pub fn join_rel_exec(rel: &str, name: &str) -> (r: String)
    ensures
        r@ == join_rel(rel@, name@),
{
    let c = chars_of(rel);
    if c.len() == 0 {
        lit(name)
    } else {
        let mut v = c;
        extend_str(&mut v, "/");
        extend_str(&mut v, name);
        string_of(v.as_slice())
    }
}

/// A manifest's path relative to the repository, with `/` separators.
pub fn rel_manifest_exec(rel: &str, manifest: &str) -> (r: String)
    ensures
        r@ == rel_manifest(rel@, manifest@),
{
    let c = chars_of(rel);
    if c.len() == 0 {
        lit(manifest)
    } else {
        let j = join_rel_exec(rel, manifest);
        let jc = chars_of(j.as_str());
        let v = replace_char_exec(jc.as_slice(), '\\', '/');
        string_of(v.as_slice())
    }
}

/// Directory names that never hold a project worth reporting: hidden
/// directories and generated trees.
pub open spec fn should_skip_dir(name: Seq<char>) -> bool {
    (name.len() > 0 && name[0] == '.') || name == "node_modules"@ || name == "target"@ || name
        == "build"@ || name == "dist"@ || name == "coverage"@ || name == "vendor"@ || name
        == "gen"@ || name == "__pycache__"@
}

/// `should_skip_dir`, plus the Unity editor's generated `Library` and `Temp`
/// trees when the repository is a Unity project.
pub open spec fn should_skip_dir_in(unity: bool, name: Seq<char>) -> bool {
    should_skip_dir(name) || (unity && (name == "Library"@ || name == "Temp"@))
}

/// Is a directory with this name skipped when looking for projects?
pub fn should_skip_dir_exec(name: &str) -> (r: bool)
    ensures
        r == should_skip_dir(name@),
{
    let c = chars_of(name);
    (c.len() > 0 && c[0] == '.') || str_eq(name, "node_modules") || str_eq(name, "target")
        || str_eq(name, "build") || str_eq(name, "dist") || str_eq(name, "coverage") || str_eq(
        name,
        "vendor",
    ) || str_eq(name, "gen") || str_eq(name, "__pycache__")
}

/// Is a directory with this name skipped, given whether the repository is a
/// Unity project?
pub fn should_skip_dir_in_exec(unity: bool, name: &str) -> (r: bool)
    ensures
        r == should_skip_dir_in(unity, name@),
{
    should_skip_dir_exec(name) || (unity && (str_eq(name, "Library") || str_eq(name, "Temp")))
}

/// `should_skip_dir`, plus the Unity editor's `Library` cache when the
/// repository is a Unity project: the rule of the walk for nested project
/// roots.
pub open spec fn should_skip_nested_dir(unity: bool, name: Seq<char>) -> bool {
    should_skip_dir(name) || (unity && name == "Library"@)
}

/// Is a directory with this name skipped when looking for nested project
/// roots, given whether the repository is a Unity project?
pub fn should_skip_nested_dir_exec(unity: bool, name: &str) -> (r: bool)
    ensures
        r == should_skip_nested_dir(unity, name@),
{
    should_skip_dir_exec(name) || (unity && str_eq(name, "Library"))
}

/// The last component of a relative root is `src-tauri`.
pub open spec fn is_tauri_runtime_dir(rel: Seq<char>) -> bool {
    ends_with(rel, "src-tauri"@) && (rel.len() == ("src-tauri"@).len() || rel[rel.len()
        - ("src-tauri"@).len() - 1] == '/')
}

/// Is this relative root the Rust half of a Tauri app?
pub fn is_tauri_runtime_dir_exec(rel: &str) -> (r: bool)
    ensures
        r == is_tauri_runtime_dir(rel@),
{
    let c = chars_of(rel);
    let t = chars_of("src-tauri");
    if !ends_with_exec(c.as_slice(), t.as_slice()) {
        return false;
    }
    c.len() == t.len() || c[c.len() - t.len() - 1] == '/'
}

// ---------------------------------------------------------------------------
// Manifest contents
// ---------------------------------------------------------------------------

/// The value of `key` on one line of a TOML file, if the line sets it.
pub open spec fn toml_line_value(line: Seq<char>, key: Seq<char>) -> Option<Seq<char>> {
    match split_once(trim(line), "="@) {
        Some((k, v)) => if trim(k) == key {
            Some(trim_char(trim(v), '"'))
        } else {
            None
        },
        None => None,
    }
}

/// The first line of `ls` that sets `key`, and its value.
pub open spec fn toml_value_in(ls: Seq<Seq<char>>, key: Seq<char>) -> Option<Seq<char>>
    decreases ls.len(),
{
    if ls.len() == 0 {
        None
    } else {
        match toml_line_value(ls[0], key) {
            Some(v) => Some(v),
            None => toml_value_in(ls.drop_first(), key),
        }
    }
}

/// The value of the first `key = value` line of a TOML file, with quotes
/// stripped. Sections are not told apart.
pub open spec fn toml_value(content: Seq<char>, key: Seq<char>) -> Option<Seq<char>> {
    toml_value_in(lines(content), key)
}

fn toml_line_value_exec(line: &[char], key: &[char]) -> (r: Option<Vec<char>>)
    ensures
        r.deep_view() == toml_line_value(line@, key@),
{
    let t = trim_exec(line);
    let eq = chars_of("=");
    match split_once_exec(t.as_slice(), eq.as_slice()) {
        Some((k, v)) => {
            let kt = trim_exec(k.as_slice());
            if chars_eq(kt.as_slice(), key) {
                let vt = trim_exec(v.as_slice());
                let r = trim_char_exec(vt.as_slice(), '"');
                proof {
                    lemma_char_deep_view(r);
                }
                Some(r)
            } else {
                None
            }
        },
        None => None,
    }
}

/// The value of the first `key = value` line of a TOML file.
pub fn extract_toml_value(content: &str, key: &str) -> (r: Option<String>)
    ensures
        r.deep_view() == toml_value(content@, key@),
{
    let c = chars_of(content);
    let k = chars_of(key);
    let ls = lines_exec(c.as_slice());
    let ghost lv = ls.deep_view();
    let mut i: usize = 0;
    assert(lv.skip(0) =~= lv);
    while i < ls.len()
        invariant
            lv == ls.deep_view(),
            lv == lines(c@),
            c@ == content@,
            k@ == key@,
            i <= lv.len(),
            toml_value_in(lv, k@) == toml_value_in(lv.skip(i as int), k@),
        decreases lv.len() - i,
    {
        proof {
            lemma_char_deep_view(ls@[i as int]);
        }
        assert(lv.skip(i as int)[0] == lv[i as int]);
        match toml_line_value_exec(ls[i].as_slice(), k.as_slice()) {
            Some(v) => {
                proof {
                    lemma_char_deep_view(v);
                }
                assert(toml_line_value(lv[i as int], k@) == Some(v@));
                assert(toml_value_in(lv.skip(i as int), k@) == Some(v@));
                let out = string_of(v.as_slice());
                assert(Some(out).deep_view() == Some(v@));
                return Some(out);
            },
            None => {},
        }
        assert(lv.skip(i as int).drop_first() =~= lv.skip(i + 1));
        i += 1;
    }
    None
}

/// The module path of the first `module ` line of a `go.mod`.
pub open spec fn go_module_in(ls: Seq<Seq<char>>) -> Option<Seq<char>>
    decreases ls.len(),
{
    if ls.len() == 0 {
        None
    } else if starts_with(ls[0], "module "@) {
        Some(trim(trim_start_str(ls[0], "module "@)))
    } else {
        go_module_in(ls.drop_first())
    }
}

/// The module path a `go.mod` declares.
pub open spec fn go_module(content: Seq<char>) -> Option<Seq<char>> {
    go_module_in(lines(content))
}

/// The module path a `go.mod` declares.
pub fn extract_go_module(content: &str) -> (r: Option<String>)
    ensures
        r.deep_view() == go_module(content@),
{
    let c = chars_of(content);
    let prefix = chars_of("module ");
    let ls = lines_exec(c.as_slice());
    let ghost lv = ls.deep_view();
    let mut i: usize = 0;
    assert(lv.skip(0) =~= lv);
    while i < ls.len()
        invariant
            lv == ls.deep_view(),
            lv == lines(c@),
            c@ == content@,
            prefix@ == "module "@,
            i <= lv.len(),
            go_module_in(lv) == go_module_in(lv.skip(i as int)),
        decreases lv.len() - i,
    {
        proof {
            lemma_char_deep_view(ls@[i as int]);
        }
        assert(lv.skip(i as int)[0] == lv[i as int]);
        if starts_with_exec(ls[i].as_slice(), prefix.as_slice()) {
            let rest = trim_start_str_exec(ls[i].as_slice(), prefix.as_slice());
            let t = trim_exec(rest.as_slice());
            assert(go_module_in(lv.skip(i as int)) == Some(t@));
            let out = string_of(t.as_slice());
            assert(Some(out).deep_view() == Some(t@));
            return Some(out);
        }
        assert(lv.skip(i as int).drop_first() =~= lv.skip(i + 1));
        i += 1;
    }
    None
}

/// What `serde_json` finds in a JSON text: `None` when the text is not
/// JSON; otherwise the string stored under `key` at the top level, if the
/// value there is a string.
pub uninterp spec fn json_string_field(content: Seq<char>, key: Seq<char>) -> Option<Option<Seq<char>>>;

/// Parses `content` with `serde_json::from_str` into a `serde_json::Value`
/// and reads the string under `key`. Claimed: the result is
/// `json_string_field` of the arguments; nothing is claimed of which texts
/// parse.
#[verifier::external_body]
fn json_string_field_exec(content: &str, key: &str) -> (r: Option<Option<String>>)
    ensures
        r.deep_view() == json_string_field(content@, key@),
{
    match serde_json::from_str::<serde_json::Value>(content) {
        Ok(value) => Some(value[key].as_str().map(|s| s.to_string())),
        Err(_) => None,
    }
}

// ---------------------------------------------------------------------------
// Projects at one root
// ---------------------------------------------------------------------------

pub open spec fn project_at(rel: Seq<char>, kind: Seq<char>, manifest: Seq<char>, md: MetadataView) -> ProjectView {
    ProjectView { kind, root: display_root(rel), manifest: rel_manifest(rel, manifest), metadata: md }
}

/// The crate name in a Cargo manifest that could be read.
pub open spec fn cargo_metadata(f: FileView) -> MetadataView {
    match f {
        FileView::Text(t) => MetadataView { name: toml_value(t, "name"@), package_manager: None, module: None },
        _ => no_metadata(),
    }
}

/// A Rust project where `Cargo.toml` exists.
pub open spec fn rust_part(rel: Seq<char>, l: RootListingView) -> Seq<ProjectView> {
    if l.cargo_toml is Missing {
        Seq::empty()
    } else {
        seq![project_at(rel, "rust"@, "Cargo.toml"@, cargo_metadata(l.cargo_toml))]
    }
}

/// A Node project where `package.json` exists. A package manifest that
/// parses and declares a `unity` version is a Unity package, not a Node
/// project; one that does not parse still marks a Node project, with no
/// metadata.
pub open spec fn node_part(rel: Seq<char>, l: RootListingView) -> Seq<ProjectView> {
    match l.package_json {
        FileView::Missing => Seq::empty(),
        FileView::Unreadable => seq![project_at(rel, "node"@, "package.json"@, no_metadata())],
        FileView::Text(t) => node_from_fields(
            rel,
            json_string_field(t, "name"@),
            json_string_field(t, "unity"@),
            l.pnpm_lock,
            l.yarn_lock,
        ),
    }
}

/// The package manager by lockfile: pnpm, then yarn, then npm.
pub open spec fn package_manager_by_lock(pnpm_lock: bool, yarn_lock: bool) -> Seq<char> {
    if pnpm_lock {
        "pnpm"@
    } else if yarn_lock {
        "yarn"@
    } else {
        "npm"@
    }
}

/// The Node project at `rel` given what was read out of its `package.json`:
/// `name` and `unity` are the string fields under those keys, `None` when
/// the text is not JSON. A text that is not JSON still makes a project, with
/// no metadata; a Unity package manifest (a JSON object with a string
/// `unity` field) makes none.
pub open spec fn node_from_fields(
    rel: Seq<char>,
    name: Option<Option<Seq<char>>>,
    unity: Option<Option<Seq<char>>>,
    pnpm_lock: bool,
    yarn_lock: bool,
) -> Seq<ProjectView> {
    match name {
        None => seq![project_at(rel, "node"@, "package.json"@, no_metadata())],
        Some(n) => if unity matches Some(Some(_)) {
            Seq::empty()
        } else {
            seq![
                project_at(
                    rel,
                    "node"@,
                    "package.json"@,
                    MetadataView {
                        name: n,
                        package_manager: Some(package_manager_by_lock(pnpm_lock, yarn_lock)),
                        module: None,
                    },
                ),
            ]
        },
    }
}

/// A Python project, by the first of `pyproject.toml`, `setup.py` and
/// `requirements.txt` that exists.
pub open spec fn python_part(rel: Seq<char>, l: RootListingView) -> Seq<ProjectView> {
    if l.pyproject_toml {
        seq![project_at(rel, "python"@, "pyproject.toml"@, no_metadata())]
    } else if l.setup_py {
        seq![project_at(rel, "python"@, "setup.py"@, no_metadata())]
    } else if l.requirements_txt {
        seq![project_at(rel, "python"@, "requirements.txt"@, no_metadata())]
    } else {
        Seq::empty()
    }
}

/// A Go project where `go.mod` exists.
pub open spec fn go_part(rel: Seq<char>, l: RootListingView) -> Seq<ProjectView> {
    match l.go_mod {
        FileView::Missing => Seq::empty(),
        FileView::Unreadable => seq![project_at(rel, "go"@, "go.mod"@, no_metadata())],
        FileView::Text(t) => seq![
            project_at(
                rel,
                "go"@,
                "go.mod"@,
                MetadataView { name: None, package_manager: None, module: go_module(t) },
            ),
        ],
    }
}

/// A Tauri app where `src-tauri/Cargo.toml` exists; its root is the
/// `src-tauri` directory.
pub open spec fn tauri_part(rel: Seq<char>, l: RootListingView) -> Seq<ProjectView> {
    if l.tauri_cargo_toml is Missing {
        Seq::empty()
    } else {
        seq![
            ProjectView {
                kind: "tauri"@,
                root: display_root(join_rel(rel, "src-tauri"@)),
                manifest: rel_manifest(rel, "src-tauri/Cargo.toml"@),
                metadata: cargo_metadata(l.tauri_cargo_toml),
            },
        ]
    }
}

/// The projects at one root, in the order Rust, Node, Python, Go, Tauri.
pub open spec fn detect_at(rel: Seq<char>, l: RootListingView) -> Seq<ProjectView> {
    rust_part(rel, l) + node_part(rel, l) + python_part(rel, l) + go_part(rel, l) + tauri_part(rel, l)
}

fn metadata_none() -> (m: ProjectMetadata)
    ensures
        m@ == no_metadata(),
{
    ProjectMetadata { name: None, package_manager: None, module: None }
}

fn make_project(rel: &str, kind: &str, manifest: &str, metadata: ProjectMetadata) -> (p: DetectedProject)
    ensures
        p@ == project_at(rel@, kind@, manifest@, metadata@),
{
    DetectedProject {
        kind: lit(kind),
        root: display_root_exec(rel),
        manifest: rel_manifest_exec(rel, manifest),
        metadata,
    }
}

fn cargo_metadata_exec(f: &FileState) -> (m: ProjectMetadata)
    ensures
        m@ == cargo_metadata(f@),
{
    match f {
        FileState::Text(t) => ProjectMetadata {
            name: extract_toml_value(t.as_str(), "name"),
            package_manager: None,
            module: None,
        },
        _ => metadata_none(),
    }
}

fn rust_part_exec(rel_root: &str, listing: &RootListing) -> (r: Vec<DetectedProject>)
    ensures
        r.deep_view() == rust_part(rel_root@, listing@),
{
    let mut out: Vec<DetectedProject> = Vec::new();
    if !matches!(listing.cargo_toml, FileState::Missing) {
        let md = cargo_metadata_exec(&listing.cargo_toml);
        out.push(make_project(rel_root, "rust", "Cargo.toml", md));
    }
    assert(out.deep_view() =~= rust_part(rel_root@, listing@));
    out
}

/// The Node project at `rel_root` from the fields read out of its
/// `package.json` (see `node_from_fields`) and which lockfiles sit beside it.
pub fn node_project_from(
    rel_root: &str,
    name: Option<Option<String>>,
    unity: Option<Option<String>>,
    pnpm_lock: bool,
    yarn_lock: bool,
) -> (r: Vec<DetectedProject>)
    ensures
        r.deep_view() == node_from_fields(
            rel_root@,
            name.deep_view(),
            unity.deep_view(),
            pnpm_lock,
            yarn_lock,
        ),
{
    let mut out: Vec<DetectedProject> = Vec::new();
    match name {
        None => {
            out.push(make_project(rel_root, "node", "package.json", metadata_none()));
        },
        Some(n) => {
            let is_unity_package = match &unity {
                Some(Some(_)) => true,
                _ => false,
            };
            if !is_unity_package {
                let pm = if pnpm_lock {
                    lit("pnpm")
                } else if yarn_lock {
                    lit("yarn")
                } else {
                    lit("npm")
                };
                let md = ProjectMetadata { name: n, package_manager: Some(pm), module: None };
                out.push(make_project(rel_root, "node", "package.json", md));
            }
        },
    }
    assert(out.deep_view() =~= node_from_fields(
        rel_root@,
        name.deep_view(),
        unity.deep_view(),
        pnpm_lock,
        yarn_lock,
    ));
    out
}

fn node_part_exec(rel_root: &str, listing: &RootListing) -> (r: Vec<DetectedProject>)
    ensures
        r.deep_view() == node_part(rel_root@, listing@),
{
    let mut out: Vec<DetectedProject> = Vec::new();
    match &listing.package_json {
        FileState::Missing => {},
        FileState::Unreadable => {
            out.push(make_project(rel_root, "node", "package.json", metadata_none()));
        },
        FileState::Text(t) => {
            let name = json_string_field_exec(t.as_str(), "name");
            let unity = if name.is_some() {
                json_string_field_exec(t.as_str(), "unity")
            } else {
                None
            };
            out = node_project_from(rel_root, name, unity, listing.pnpm_lock, listing.yarn_lock);
        },
    }
    assert(out.deep_view() =~= node_part(rel_root@, listing@));
    out
}

fn python_part_exec(rel_root: &str, listing: &RootListing) -> (r: Vec<DetectedProject>)
    ensures
        r.deep_view() == python_part(rel_root@, listing@),
{
    let mut out: Vec<DetectedProject> = Vec::new();
    if listing.pyproject_toml {
        out.push(make_project(rel_root, "python", "pyproject.toml", metadata_none()));
    } else if listing.setup_py {
        out.push(make_project(rel_root, "python", "setup.py", metadata_none()));
    } else if listing.requirements_txt {
        out.push(make_project(rel_root, "python", "requirements.txt", metadata_none()));
    }
    assert(out.deep_view() =~= python_part(rel_root@, listing@));
    out
}

fn go_part_exec(rel_root: &str, listing: &RootListing) -> (r: Vec<DetectedProject>)
    ensures
        r.deep_view() == go_part(rel_root@, listing@),
{
    let mut out: Vec<DetectedProject> = Vec::new();
    match &listing.go_mod {
        FileState::Missing => {},
        FileState::Unreadable => {
            out.push(make_project(rel_root, "go", "go.mod", metadata_none()));
        },
        FileState::Text(t) => {
            let md = ProjectMetadata {
                name: None,
                package_manager: None,
                module: extract_go_module(t.as_str()),
            };
            out.push(make_project(rel_root, "go", "go.mod", md));
        },
    }
    assert(out.deep_view() =~= go_part(rel_root@, listing@));
    out
}

fn tauri_part_exec(rel_root: &str, listing: &RootListing) -> (r: Vec<DetectedProject>)
    ensures
        r.deep_view() == tauri_part(rel_root@, listing@),
{
    let mut out: Vec<DetectedProject> = Vec::new();
    if !matches!(listing.tauri_cargo_toml, FileState::Missing) {
        let md = cargo_metadata_exec(&listing.tauri_cargo_toml);
        let tauri_root = join_rel_exec(rel_root, "src-tauri");
        let p = DetectedProject {
            kind: lit("tauri"),
            root: display_root_exec(tauri_root.as_str()),
            manifest: rel_manifest_exec(rel_root, "src-tauri/Cargo.toml"),
            metadata: md,
        };
        out.push(p);
    }
    assert(out.deep_view() =~= tauri_part(rel_root@, listing@));
    out
}

/// `a` followed by `b`.
pub fn append_projects(a: &mut Vec<DetectedProject>, b: Vec<DetectedProject>)
    ensures
        final(a).deep_view() == old(a).deep_view() + b.deep_view(),
{
    let ghost a0 = a.deep_view();
    let mut b = b;
    let ghost bv = b.deep_view();
    a.append(&mut b);
    assert(a.deep_view() =~= a0 + bv);
}

/// The projects whose manifests sit directly under one root.
pub fn detect_projects_at(rel_root: &str, listing: &RootListing) -> (r: Vec<DetectedProject>)
    ensures
        r.deep_view() == detect_at(rel_root@, listing@),
{
    let mut out = rust_part_exec(rel_root, listing);
    append_projects(&mut out, node_part_exec(rel_root, listing));
    append_projects(&mut out, python_part_exec(rel_root, listing));
    append_projects(&mut out, go_part_exec(rel_root, listing));
    append_projects(&mut out, tauri_part_exec(rel_root, listing));
    out
}

// ---------------------------------------------------------------------------
// Nested roots and the whole repository
// ---------------------------------------------------------------------------

/// How deep below the repository root nested manifests are looked for.
pub const NESTED_MAX_DEPTH: usize = 3;

/// The walk below the repository root that looks for nested project roots;
/// `unity` makes it skip the Unity editor's `Library` cache as well.
pub struct NestedWalk {
    pub unity: bool,
}

impl NestedWalk {
    /// A walk for a repository that is (`unity`) or is not a Unity project.
    pub fn new(unity: bool) -> (r: NestedWalk)
        ensures
            r.unity == unity,
    {
        NestedWalk { unity }
    }

    /// Whether the entries of a directory at `depth` below the repository
    /// root are listed: only above `NESTED_MAX_DEPTH`.
    pub fn enter_dir(&self, depth: usize) -> (r: bool)
        ensures
            r == (depth < NESTED_MAX_DEPTH),
    {
        depth < NESTED_MAX_DEPTH
    }

    /// Whether the walk goes into a subdirectory of this name.
    pub fn descends_into(&self, name: &str) -> (r: bool)
        ensures
            r == !should_skip_nested_dir(self.unity, name@),
    {
        !should_skip_nested_dir_exec(self.unity, name)
    }
}

/// How many nested roots are kept at most.
pub const NESTED_MAX_ROOTS: usize = 64;

/// The files whose presence makes a directory a nested project root.
pub open spec fn project_manifest_names_spec() -> Seq<Seq<char>> {
    seq!["Cargo.toml"@, "package.json"@, "pyproject.toml"@, "setup.py"@, "requirements.txt"@, "go.mod"@]
}

/// The files whose presence makes a directory a nested project root: any
/// one of them is enough.
pub fn project_manifest_names() -> (r: Vec<String>)
    ensures
        r.deep_view() == project_manifest_names_spec(),
{
    let mut r: Vec<String> = Vec::new();
    r.push(lit("Cargo.toml"));
    r.push(lit("package.json"));
    r.push(lit("pyproject.toml"));
    r.push(lit("setup.py"));
    r.push(lit("requirements.txt"));
    r.push(lit("go.mod"));
    assert(r.deep_view() =~= project_manifest_names_spec());
    r
}

/// A directory met while walking the repository for nested projects, in the
/// order the walk met it.
pub struct NestedDir {
    pub rel_root: String,
    pub has_manifest: bool,
}

impl View for NestedDir {
    type V = (Seq<char>, bool);

    open spec fn view(&self) -> (Seq<char>, bool) {
        (self.rel_root@, self.has_manifest)
    }
}

impl DeepView for NestedDir {
    type V = (Seq<char>, bool);

    open spec fn deep_view(&self) -> (Seq<char>, bool) {
        self@
    }
}

/// The nested roots a walk yields: directories holding a manifest, other than
/// a Tauri app's `src-tauri`, until `NESTED_MAX_ROOTS` are found.
pub open spec fn nested_roots(dirs: Seq<(Seq<char>, bool)>) -> Seq<Seq<char>>
    decreases dirs.len(),
{
    if dirs.len() == 0 {
        Seq::empty()
    } else {
        let r = nested_roots(dirs.drop_last());
        let d = dirs.last();
        if r.len() < NESTED_MAX_ROOTS && d.1 && !is_tauri_runtime_dir(d.0) {
            r.push(d.0)
        } else {
            r
        }
    }
}

/// The nested project roots among the directories a walk met.
pub fn discover_nested_project_roots(dirs: &Vec<NestedDir>) -> (r: Vec<String>)
    ensures
        r.deep_view() == nested_roots(dirs.deep_view()),
{
    let ghost dv = dirs.deep_view();
    let mut r: Vec<String> = Vec::new();
    let mut i: usize = 0;
    while i < dirs.len()
        invariant
            dv == dirs.deep_view(),
            i <= dv.len(),
            r.deep_view() == nested_roots(dv.take(i as int)),
        decreases dv.len() - i,
    {
        assert(dv.take(i + 1).drop_last() =~= dv.take(i as int));
        let ghost r0 = r.deep_view();
        if r.len() < NESTED_MAX_ROOTS && dirs[i].has_manifest && !is_tauri_runtime_dir_exec(
            dirs[i].rel_root.as_str(),
        ) {
            r.push(dirs[i].rel_root.clone());
            assert(r.deep_view() =~= r0.push(dv[i as int].0));
        }
        i += 1;
    }
    assert(dv.take(dv.len() as int) =~= dv);
    r
}

/// Every project found under the given roots, root by root.
pub open spec fn all_detected(roots: Seq<RootScanView>) -> Seq<ProjectView>
    decreases roots.len(),
{
    if roots.len() == 0 {
        Seq::empty()
    } else {
        all_detected(roots.drop_last()) + detect_at(roots.last().rel_root, roots.last().listing)
    }
}

/// What makes two detected projects the same one.
pub open spec fn project_id(p: ProjectView) -> Seq<Seq<char>> {
    seq![p.kind, p.root, p.manifest]
}

/// The order projects are reported in: by root, then kind, then manifest.
pub open spec fn project_sort_key(p: ProjectView) -> Seq<Seq<char>> {
    seq![p.root, p.kind, p.manifest]
}

/// `s` with every project dropped whose identity an earlier one has.
pub open spec fn dedup_projects(s: Seq<ProjectView>) -> Seq<ProjectView>
    decreases s.len(),
{
    if s.len() == 0 {
        Seq::empty()
    } else {
        let d = dedup_projects(s.drop_last());
        if d.map_values(|p: ProjectView| project_id(p)).contains(project_id(s.last())) {
            d
        } else {
            d.push(s.last())
        }
    }
}

/// `s` in report order.
pub open spec fn sorted_projects(s: Seq<ProjectView>) -> Seq<ProjectView> {
    btree_order(s.map_values(|p: ProjectView| project_sort_key(p))).map_values(|i: usize| s[i as int])
}

/// The projects of a repository: every root's projects, each project once,
/// in report order.
pub open spec fn projects_of(roots: Seq<RootScanView>) -> Seq<ProjectView> {
    sorted_projects(dedup_projects(all_detected(roots)))
}

/// A copy of an optional string.
pub fn opt_string_copy(o: &Option<String>) -> (r: Option<String>)
    ensures
        r == *o,
{
    match o {
        Some(s) => Some(s.clone()),
        None => None,
    }
}

/// A copy of a detected project.
pub fn copy_project(p: &DetectedProject) -> (r: DetectedProject)
    ensures
        r@ == p@,
{
    DetectedProject {
        kind: p.kind.clone(),
        root: p.root.clone(),
        manifest: p.manifest.clone(),
        metadata: ProjectMetadata {
            name: opt_string_copy(&p.metadata.name),
            package_manager: opt_string_copy(&p.metadata.package_manager),
            module: opt_string_copy(&p.metadata.module),
        },
    }
}

fn triple(a: &String, b: &String, c: &String) -> (r: Vec<Vec<char>>)
    ensures
        r.deep_view() == seq![a@, b@, c@],
{
    let mut r: Vec<Vec<char>> = Vec::new();
    let x = chars_of(a.as_str());
    let y = chars_of(b.as_str());
    let z = chars_of(c.as_str());
    proof {
        lemma_char_deep_view(x);
        lemma_char_deep_view(y);
        lemma_char_deep_view(z);
    }
    r.push(x);
    r.push(y);
    r.push(z);
    assert(r.deep_view() =~= seq![a@, b@, c@]);
    r
}

/// The projects of a repository, given what each candidate root holds; the
/// repository itself comes first.
pub fn detect_projects(roots: &Vec<RootScan>) -> (r: Vec<DetectedProject>)
    ensures
        r.deep_view() == projects_of(roots.deep_view()),
{
    let ghost rv = roots.deep_view();
    // Every root's projects.
    let mut all: Vec<DetectedProject> = Vec::new();
    let mut i: usize = 0;
    while i < roots.len()
        invariant
            rv == roots.deep_view(),
            i <= rv.len(),
            all.deep_view() == all_detected(rv.take(i as int)),
        decreases rv.len() - i,
    {
        assert(rv.take(i + 1).drop_last() =~= rv.take(i as int));
        let found = detect_projects_at(roots[i].rel_root.as_str(), &roots[i].listing);
        append_projects(&mut all, found);
        i += 1;
    }
    assert(rv.take(rv.len() as int) =~= rv);
    let ghost av = all.deep_view();

    // First occurrence of each identity.
    let mut uniq: Vec<DetectedProject> = Vec::new();
    let mut ids: Vec<Vec<Vec<char>>> = Vec::new();
    let mut j: usize = 0;
    while j < all.len()
        invariant
            av == all.deep_view(),
            j <= av.len(),
            uniq.deep_view() == dedup_projects(av.take(j as int)),
            ids.deep_view() == uniq.deep_view().map_values(|p: ProjectView| project_id(p)),
        decreases av.len() - j,
    {
        assert(av.take(j + 1).drop_last() =~= av.take(j as int));
        let id = triple(&all[j].kind, &all[j].root, &all[j].manifest);
        let mut seen = false;
        let mut q: usize = 0;
        while q < ids.len()
            invariant
                q <= ids@.len(),
                seen ==> ids.deep_view().contains(id.deep_view()),
                !seen ==> forall|x: int| 0 <= x < q ==> ids.deep_view()[x] != id.deep_view(),
            decreases ids@.len() - q,
        {
            if crate::order::tuple_eq_exec(&ids[q], &id) {
                assert(ids.deep_view()[q as int] == id.deep_view());
                seen = true;
            }
            q += 1;
        }
        if !seen {
            let ghost u0 = uniq.deep_view();
            let ghost i0 = ids.deep_view();
            uniq.push(copy_project(&all[j]));
            ids.push(id);
            assert(uniq.deep_view() =~= u0.push(av[j as int]));
            assert(ids.deep_view() =~= i0.push(project_id(av[j as int])));
            assert(ids.deep_view() =~= uniq.deep_view().map_values(|p: ProjectView| project_id(p)));
        }
        j += 1;
    }
    assert(av.take(av.len() as int) =~= av);
    let ghost uv = uniq.deep_view();

    // Report order.
    let mut keys: Vec<Vec<Vec<char>>> = Vec::new();
    let mut k: usize = 0;
    while k < uniq.len()
        invariant
            uv == uniq.deep_view(),
            k <= uv.len(),
            keys.deep_view() == uv.take(k as int).map_values(|p: ProjectView| project_sort_key(p)),
        decreases uv.len() - k,
    {
        let key = triple(&uniq[k].root, &uniq[k].kind, &uniq[k].manifest);
        let ghost k0 = keys.deep_view();
        let ghost kd = key.deep_view();
        assert(kd == project_sort_key(uv[k as int]));
        keys.push(key);
        assert(keys.deep_view() =~= k0.push(kd));
        assert(uv.take(k + 1) =~= uv.take(k as int).push(uv[k as int]));
        assert(keys.deep_view() =~= uv.take(k + 1).map_values(
            |p: ProjectView| project_sort_key(p),
        ));
        k += 1;
    }
    assert(uv.take(uv.len() as int) =~= uv);
    let order = last_key_order(&keys);
    let mut out: Vec<DetectedProject> = Vec::new();
    let mut m: usize = 0;
    while m < order.len()
        invariant
            uv == uniq.deep_view(),
            keys@.len() == uv.len(),
            forall|x: int| 0 <= x < order@.len() ==> order@[x] < keys@.len(),
            m <= order@.len(),
            out.deep_view() == order@.take(m as int).map_values(|x: usize| uv[x as int]),
        decreases order@.len() - m,
    {
        let ghost o0 = out.deep_view();
        let c = copy_project(&uniq[order[m]]);
        assert(c@ == uv[order@[m as int] as int]);
        out.push(c);
        assert(out.deep_view() =~= o0.push(uv[order@[m as int] as int]));
        assert(order@.take(m + 1) =~= order@.take(m as int).push(order@[m as int]));
        assert(out.deep_view() =~= order@.take(m + 1).map_values(|x: usize| uv[x as int]));
        m += 1;
    }
    assert(order@.take(order@.len() as int) =~= order@);
    out
}

} // verus!
