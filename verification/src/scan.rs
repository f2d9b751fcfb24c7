//! The scan: lockfiles, suggested commands, and the assembled result.
use vstd::prelude::*;

use sha2::Digest;

use crate::detect::{DetectedProject, ProjectView};
use crate::git::{GitState, GitStateView};
use crate::text::{
    chars_of, extend_chars, extend_str, join, join_exec, lemma_char_deep_view, lit, str_eq,
    string_of,
};
use crate::tools::{SuiteToolInfo, SuiteToolInfoView, ToolInfo, ToolInfoView};

verus! {

broadcast use vstd::string::group_string_axioms;

/// The schema a scan is written with.
pub const SCAN_SCHEMA_VERSION: &'static str = "probe.scan.v1";

/// A lockfile: its path, a short hash of its bytes, and whether its manifest
/// changed after it.
pub struct LockfileInfo {
    pub path: String,
    pub hash: String,
    pub stale: bool,
}

/// The view of a `LockfileInfo`.


pub struct LockfileInfoView {
    pub path: Seq<char>,
    pub hash: Seq<char>,
    pub stale: bool,
}

impl View for LockfileInfo {
    type V = LockfileInfoView;

    open spec fn view(&self) -> LockfileInfoView {
        LockfileInfoView { path: self.path@, hash: self.hash@, stale: self.stale }
    }
}

impl DeepView for LockfileInfo {
    type V = LockfileInfoView;

    open spec fn deep_view(&self) -> LockfileInfoView {
        self@
    }
}

/// A command likely to work here, with the directory it runs in.
pub struct SuggestedCommand {
    pub action: String,
    pub command: String,
    pub argv: Vec<String>,
    pub cwd: String,
    pub confidence: String,
    pub reason: String,
}

/// The view of a `SuggestedCommand`.


pub struct SuggestedCommandView {
    pub action: Seq<char>,
    pub command: Seq<char>,
    pub argv: Seq<Seq<char>>,
    pub cwd: Seq<char>,
    pub confidence: Seq<char>,
    pub reason: Seq<char>,
}

impl View for SuggestedCommand {
    type V = SuggestedCommandView;

    open spec fn view(&self) -> SuggestedCommandView {
        SuggestedCommandView {
            action: self.action@,
            command: self.command@,
            argv: self.argv.deep_view(),
            cwd: self.cwd@,
            confidence: self.confidence@,
            reason: self.reason@,
        }
    }
}

impl DeepView for SuggestedCommand {
    type V = SuggestedCommandView;

    open spec fn deep_view(&self) -> SuggestedCommandView {
        self@
    }
}

/// Everything one scan found.
pub struct ScanResult {
    pub schema_version: String,
    pub timestamp: String,
    pub repo_path: String,
    pub projects: Vec<DetectedProject>,
    pub git: Option<GitState>,
    pub tools: Vec<ToolInfo>,
    pub suite_tools: Vec<SuiteToolInfo>,
    pub lockfiles: Vec<LockfileInfo>,
    pub suggested_commands: Vec<SuggestedCommand>,
}

/// The view of a `ScanResult`.


pub struct ScanView {
    pub schema_version: Seq<char>,
    pub timestamp: Seq<char>,
    pub repo_path: Seq<char>,
    pub projects: Seq<ProjectView>,
    pub git: Option<GitStateView>,
    pub tools: Seq<ToolInfoView>,
    pub suite_tools: Seq<SuiteToolInfoView>,
    pub lockfiles: Seq<LockfileInfoView>,
    pub suggested_commands: Seq<SuggestedCommandView>,
}

impl View for ScanResult {
    type V = ScanView;

    open spec fn view(&self) -> ScanView {
        ScanView {
            schema_version: self.schema_version@,
            timestamp: self.timestamp@,
            repo_path: self.repo_path@,
            projects: self.projects.deep_view(),
            git: self.git.deep_view(),
            tools: self.tools.deep_view(),
            suite_tools: self.suite_tools.deep_view(),
            lockfiles: self.lockfiles.deep_view(),
            suggested_commands: self.suggested_commands.deep_view(),
        }
    }
}

// ---------------------------------------------------------------------------
// Suggested commands
// ---------------------------------------------------------------------------

/// The shell text of a command: `argv` joined by spaces, prefixed with
/// `cd <root> && ` when the project is not at the repository root.
pub open spec fn shell_text(root: Seq<char>, argv: Seq<Seq<char>>) -> Seq<char> {
    if root == "."@ {
        join(argv, " "@)
    } else {
        "cd "@ + root + " && "@ + join(argv, " "@)
    }
}

/// A suggested command for a project at `root`.
pub open spec fn command_at(
    root: Seq<char>,
    action: Seq<char>,
    argv: Seq<Seq<char>>,
    confidence: Seq<char>,
    reason: Seq<char>,
) -> SuggestedCommandView {
    SuggestedCommandView {
        action,
        command: shell_text(root, argv),
        argv,
        cwd: root,
        confidence,
        reason,
    }
}

/// The Node package manager commands run with: pnpm when the project uses
/// it, else npm.
pub open spec fn node_runner(p: ProjectView) -> Seq<char> {
    if p.metadata.package_manager == Some("pnpm"@) {
        "pnpm"@
    } else {
        "npm"@
    }
}

/// The commands a project suggests.
pub open spec fn commands_for(p: ProjectView) -> Seq<SuggestedCommandView> {
    let r = p.root;
    if p.kind == "rust"@ {
        seq![
            command_at(r, "check"@, seq!["cargo"@, "check"@], "high"@, "Rust manifest detected"@),
            command_at(r, "test"@, seq!["cargo"@, "test"@], "high"@, "Rust manifest detected"@),
            command_at(r, "build"@, seq!["cargo"@, "build"@], "high"@, "Rust manifest detected"@),
        ]
    } else if p.kind == "node"@ {
        let pm = node_runner(p);
        seq![
            command_at(r, "install"@, seq![pm, "install"@], "high"@, "Node package manifest detected"@),
            command_at(
                r,
                "build"@,
                seq![pm, "run"@, "build"@],
                "medium"@,
                "Common Node build script; verify package scripts if this fails"@,
            ),
            command_at(
                r,
                "test"@,
                seq![pm, "test"@],
                "medium"@,
                "Common Node test script; verify package scripts if this fails"@,
            ),
        ]
    } else if p.kind == "python"@ {
        seq![
            command_at(
                r,
                "test"@,
                seq!["python"@, "-m"@, "pytest"@],
                "medium"@,
                "Python manifest or requirements file detected"@,
            ),
        ]
    } else if p.kind == "go"@ {
        seq![
            command_at(r, "build"@, seq!["go"@, "build"@, "./..."@], "high"@, "Go module detected"@),
            command_at(r, "test"@, seq!["go"@, "test"@, "./..."@], "high"@, "Go module detected"@),
        ]
    } else if p.kind == "tauri"@ {
        seq![
            command_at(
                r,
                "dev"@,
                seq!["npm"@, "run"@, "tauri"@, "dev"@],
                "medium"@,
                "Tauri project detected; run as a smoke/dev command, not unattended CI"@,
            ),
            command_at(
                r,
                "build"@,
                seq!["npm"@, "run"@, "tauri"@, "build"@],
                "medium"@,
                "Tauri project detected; binary build may require human smoke testing"@,
            ),
        ]
    } else {
        Seq::empty()
    }
}

/// The commands all projects suggest, project by project.
pub open spec fn suggested_for(ps: Seq<ProjectView>) -> Seq<SuggestedCommandView>
    decreases ps.len(),
{
    if ps.len() == 0 {
        Seq::empty()
    } else {
        suggested_for(ps.drop_last()) + commands_for(ps.last())
    }
}

/// Some command of `cs` does `action` by running `argv` in `root`.
pub open spec fn runs_in(cs: Seq<SuggestedCommandView>, root: Seq<char>, action: Seq<char>, argv: Seq<Seq<char>>) -> bool {
    exists|k: int|
        0 <= k < cs.len() && (#[trigger] cs[k]).action == action && cs[k].argv == argv && cs[k].cwd
            == root
}

/// What one project suggests is among the suggested commands.
proof fn lemma_suggested_contains(ps: Seq<ProjectView>, i: int, j: int)
    requires
        0 <= i < ps.len(),
        0 <= j < commands_for(ps[i]).len(),
    ensures
        suggested_for(ps).contains(commands_for(ps[i])[j]),
    decreases ps.len(),
{
    let c = commands_for(ps[i])[j];
    let d = ps.drop_last();
    if i < ps.len() - 1 {
        assert(d[i] == ps[i]);
        lemma_suggested_contains(d, i, j);
        crate::seq_facts::lemma_contains_concat(suggested_for(d), commands_for(ps.last()), c);
    } else {
        assert(ps.last() == ps[i]);
        assert(commands_for(ps.last()).contains(c)) by {
            assert(commands_for(ps.last())[j] == c);
        }
        crate::seq_facts::lemma_contains_concat(suggested_for(d), commands_for(ps.last()), c);
    }
}

/// The `j`-th command of project `i` makes `runs_in` hold of its fields.
proof fn lemma_runs_in_at(ps: Seq<ProjectView>, i: int, j: int)
    requires
        0 <= i < ps.len(),
        0 <= j < commands_for(ps[i]).len(),
    ensures
        runs_in(
            suggested_for(ps),
            commands_for(ps[i])[j].cwd,
            commands_for(ps[i])[j].action,
            commands_for(ps[i])[j].argv,
        ),
{
    lemma_suggested_contains(ps, i, j);
    let cs = suggested_for(ps);
    let k = choose|k: int| 0 <= k < cs.len() && cs[k] == commands_for(ps[i])[j];
    assert(cs[k] == commands_for(ps[i])[j]);
}

/// Every detected project of a known stack has its stack's commands
/// suggested, each run in the project's root: Rust `cargo check`, `cargo
/// test` and `cargo build`; Node install, build and test with pnpm when the
/// project uses pnpm and npm otherwise; Python `python -m pytest`; Go `go
/// build ./...` and `go test ./...`; Tauri `npm run tauri dev` and `npm run
/// tauri build`.
pub proof fn law_stack_commands_suggested(ps: Seq<ProjectView>, i: int)
    requires
        0 <= i < ps.len(),
    ensures
        ps[i].kind == "rust"@ ==> runs_in(suggested_for(ps), ps[i].root, "check"@, seq!["cargo"@, "check"@])
            && runs_in(suggested_for(ps), ps[i].root, "test"@, seq!["cargo"@, "test"@])
            && runs_in(suggested_for(ps), ps[i].root, "build"@, seq!["cargo"@, "build"@]),
        ps[i].kind == "node"@ ==> ({
            let pm = if ps[i].metadata.package_manager == Some("pnpm"@) { "pnpm"@ } else { "npm"@ };
            runs_in(suggested_for(ps), ps[i].root, "install"@, seq![pm, "install"@])
                && runs_in(suggested_for(ps), ps[i].root, "build"@, seq![pm, "run"@, "build"@])
                && runs_in(suggested_for(ps), ps[i].root, "test"@, seq![pm, "test"@])
        }),
        ps[i].kind == "python"@ ==> runs_in(
            suggested_for(ps),
            ps[i].root,
            "test"@,
            seq!["python"@, "-m"@, "pytest"@],
        ),
        ps[i].kind == "go"@ ==> runs_in(suggested_for(ps), ps[i].root, "build"@, seq!["go"@, "build"@, "./..."@])
            && runs_in(suggested_for(ps), ps[i].root, "test"@, seq!["go"@, "test"@, "./..."@]),
        ps[i].kind == "tauri"@ ==> runs_in(
            suggested_for(ps),
            ps[i].root,
            "dev"@,
            seq!["npm"@, "run"@, "tauri"@, "dev"@],
        ) && runs_in(suggested_for(ps), ps[i].root, "build"@, seq!["npm"@, "run"@, "tauri"@, "build"@]),
{
    lemma_stack_words_distinct();
    let n = commands_for(ps[i]).len();
    if n > 0 {
        lemma_runs_in_at(ps, i, 0);
    }
    if n > 1 {
        lemma_runs_in_at(ps, i, 1);
    }
    if n > 2 {
        lemma_runs_in_at(ps, i, 2);
    }
}

/// The stack names differ from one another.
proof fn lemma_stack_words_distinct()
    ensures
        "rust"@ != "node"@,
        "rust"@ != "python"@,
        "rust"@ != "go"@,
        "rust"@ != "tauri"@,
        "node"@ != "python"@,
        "node"@ != "go"@,
        "node"@ != "tauri"@,
        "python"@ != "go"@,
        "python"@ != "tauri"@,
        "go"@ != "tauri"@,
{
    reveal_strlit("rust");
    reveal_strlit("node");
    reveal_strlit("python");
    reveal_strlit("go");
    reveal_strlit("tauri");
    assert("rust"@[0] != "node"@[0]);
    assert("rust"@[0] != "python"@[0]);
    assert("rust"@[0] != "go"@[0]);
    assert("rust"@[0] != "tauri"@[0]);
    assert("node"@[0] != "python"@[0]);
    assert("node"@[0] != "go"@[0]);
    assert("node"@[0] != "tauri"@[0]);
    assert("python"@[0] != "go"@[0]);
    assert("python"@[0] != "tauri"@[0]);
    assert("go"@[0] != "tauri"@[0]);
}

/// Every suggested command runs where its project is: its shell text is its
/// `argv` joined by spaces, prefixed with `cd <cwd> && ` unless `cwd` is the
/// repository root, and its `cwd` is the root of a detected project.
pub proof fn law_command_text_matches_argv(ps: Seq<ProjectView>)
    ensures
        forall|i: int|
            0 <= i < suggested_for(ps).len() ==> (#[trigger] suggested_for(ps)[i]).command == shell_text(
                suggested_for(ps)[i].cwd,
                suggested_for(ps)[i].argv,
            ),
        forall|i: int|
            0 <= i < suggested_for(ps).len() ==> exists|k: int|
                0 <= k < ps.len() && ps[k].root == (#[trigger] suggested_for(ps)[i]).cwd,
    decreases ps.len(),
{
    if ps.len() > 0 {
        let d = ps.drop_last();
        law_command_text_matches_argv(d);
        let a = suggested_for(d);
        let c = commands_for(ps.last());
        assert forall|i: int| 0 <= i < suggested_for(ps).len() implies (#[trigger] suggested_for(ps)[i]).command
            == shell_text(suggested_for(ps)[i].cwd, suggested_for(ps)[i].argv) && exists|k: int|
            0 <= k < ps.len() && ps[k].root == suggested_for(ps)[i].cwd by {
            if i < a.len() {
                assert(suggested_for(ps)[i] == a[i]);
                let k = choose|k: int| 0 <= k < d.len() && d[k].root == a[i].cwd;
                assert(ps[k] == d[k]);
            } else {
                assert(suggested_for(ps)[i] == c[i - a.len()]);
                assert(ps[ps.len() - 1] == ps.last());
                assert(c[i - a.len()].cwd == ps.last().root);
            }
        }
    }
}

fn args2(a: &str, b: &str) -> (r: Vec<String>)
    ensures
        r.deep_view() == seq![a@, b@],
{
    let mut r: Vec<String> = Vec::new();
    r.push(lit(a));
    r.push(lit(b));
    assert(r.deep_view() =~= seq![a@, b@]);
    r
}

fn args3(a: &str, b: &str, c: &str) -> (r: Vec<String>)
    ensures
        r.deep_view() == seq![a@, b@, c@],
{
    let mut r: Vec<String> = Vec::new();
    r.push(lit(a));
    r.push(lit(b));
    r.push(lit(c));
    assert(r.deep_view() =~= seq![a@, b@, c@]);
    r
}

fn args4(a: &str, b: &str, c: &str, d: &str) -> (r: Vec<String>)
    ensures
        r.deep_view() == seq![a@, b@, c@, d@],
{
    let mut r: Vec<String> = Vec::new();
    r.push(lit(a));
    r.push(lit(b));
    r.push(lit(c));
    r.push(lit(d));
    assert(r.deep_view() =~= seq![a@, b@, c@, d@]);
    r
}

/// The shell text of a command run from `root`.
pub fn shell_text_exec(root: &str, argv: &Vec<String>) -> (r: String)
    ensures
        r@ == shell_text(root@, argv.deep_view()),
{
    let mut parts: Vec<Vec<char>> = Vec::new();
    let mut i: usize = 0;
    while i < argv.len()
        invariant
            i <= argv@.len(),
            parts.deep_view() == argv.deep_view().take(i as int),
        decreases argv@.len() - i,
    {
        let c = chars_of(argv[i].as_str());
        proof {
            lemma_char_deep_view(c);
        }
        let ghost p0 = parts.deep_view();
        let ghost cv = c@;
        parts.push(c);
        assert(parts.deep_view() =~= p0.push(cv));
        assert(argv.deep_view().take(i + 1) =~= argv.deep_view().take(i as int).push(argv@[i as int]@));
        assert(parts.deep_view() =~= argv.deep_view().take(i + 1));
        i += 1;
    }
    assert(argv.deep_view().take(argv@.len() as int) =~= argv.deep_view());
    let sp = chars_of(" ");
    let joined = join_exec(&parts, sp.as_slice());
    if str_eq(root, ".") {
        string_of(joined.as_slice())
    } else {
        let mut v: Vec<char> = Vec::new();
        extend_str(&mut v, "cd ");
        extend_str(&mut v, root);
        extend_str(&mut v, " && ");
        extend_chars(&mut v, joined.as_slice());
        string_of(v.as_slice())
    }
}

/// A suggested command for a project at `root`.
pub fn command(root: &str, action: &str, args: Vec<String>, confidence: &str, reason: &str) -> (r: SuggestedCommand)
    ensures
        r@ == command_at(root@, action@, args.deep_view(), confidence@, reason@),
{
    let text = shell_text_exec(root, &args);
    SuggestedCommand {
        action: lit(action),
        command: text,
        argv: args,
        cwd: lit(root),
        confidence: lit(confidence),
        reason: lit(reason),
    }
}

fn push_command(v: &mut Vec<SuggestedCommand>, c: SuggestedCommand)
    ensures
        final(v).deep_view() == old(v).deep_view().push(c@),
{
    let ghost v0 = v.deep_view();
    let ghost cv = c@;
    v.push(c);
    assert(v.deep_view() =~= v0.push(cv));
}

/// The commands one project suggests.
pub fn commands_for_project(p: &DetectedProject) -> (r: Vec<SuggestedCommand>)
    ensures
        r.deep_view() == commands_for(p@),
{
    let mut out: Vec<SuggestedCommand> = Vec::new();
    let root = p.root.as_str();
    let kind = p.kind.as_str();
    if str_eq(kind, "rust") {
        push_command(&mut out, command(root, "check", args2("cargo", "check"), "high", "Rust manifest detected"));
        push_command(&mut out, command(root, "test", args2("cargo", "test"), "high", "Rust manifest detected"));
        push_command(&mut out, command(root, "build", args2("cargo", "build"), "high", "Rust manifest detected"));
        assert(out.deep_view() =~= commands_for(p@));
    } else if str_eq(kind, "node") {
        let pnpm = match &p.metadata.package_manager {
            Some(pm) => str_eq(pm.as_str(), "pnpm"),
            None => false,
        };
        let pm: &str = if pnpm { "pnpm" } else { "npm" };
        assert(pm@ == node_runner(p@));
        push_command(&mut out, command(root, "install", args2(pm, "install"), "high", "Node package manifest detected"));
        push_command(&mut out, command(root, "build", args3(pm, "run", "build"), "medium", "Common Node build script; verify package scripts if this fails"));
        push_command(&mut out, command(root, "test", args2(pm, "test"), "medium", "Common Node test script; verify package scripts if this fails"));
        assert(out.deep_view() =~= commands_for(p@));
    } else if str_eq(kind, "python") {
        push_command(&mut out, command(root, "test", args3("python", "-m", "pytest"), "medium", "Python manifest or requirements file detected"));
        assert(out.deep_view() =~= commands_for(p@));
    } else if str_eq(kind, "go") {
        push_command(&mut out, command(root, "build", args3("go", "build", "./..."), "high", "Go module detected"));
        push_command(&mut out, command(root, "test", args3("go", "test", "./..."), "high", "Go module detected"));
        assert(out.deep_view() =~= commands_for(p@));
    } else if str_eq(kind, "tauri") {
        push_command(&mut out, command(root, "dev", args4("npm", "run", "tauri", "dev"), "medium", "Tauri project detected; run as a smoke/dev command, not unattended CI"));
        push_command(&mut out, command(root, "build", args4("npm", "run", "tauri", "build"), "medium", "Tauri project detected; binary build may require human smoke testing"));
        assert(out.deep_view() =~= commands_for(p@));
    } else {
        assert(out.deep_view() =~= commands_for(p@));
    }
    out
}

/// The commands the detected projects suggest, project by project.
pub fn suggest_commands(projects: &Vec<DetectedProject>) -> (r: Vec<SuggestedCommand>)
    ensures
        r.deep_view() == suggested_for(projects.deep_view()),
{
    let ghost pv = projects.deep_view();
    let mut out: Vec<SuggestedCommand> = Vec::new();
    let mut i: usize = 0;
    while i < projects.len()
        invariant
            pv == projects.deep_view(),
            i <= pv.len(),
            out.deep_view() == suggested_for(pv.take(i as int)),
        decreases pv.len() - i,
    {
        assert(pv.take(i + 1).drop_last() =~= pv.take(i as int));
        let mut more = commands_for_project(&projects[i]);
        let ghost o0 = out.deep_view();
        let ghost m0 = more.deep_view();
        out.append(&mut more);
        assert(out.deep_view() =~= o0 + m0);
        i += 1;
    }
    assert(pv.take(pv.len() as int) =~= pv);
    out
}

// ---------------------------------------------------------------------------
// Lockfiles
// ---------------------------------------------------------------------------

/// A lockfile a project may have: its file name and the project root.
pub struct LockfileCandidate {
    pub filename: String,
    pub project_root: String,
}

impl View for LockfileCandidate {
    type V = (Seq<char>, Seq<char>);

    open spec fn view(&self) -> (Seq<char>, Seq<char>) {
        (self.filename@, self.project_root@)
    }
}

impl DeepView for LockfileCandidate {
    type V = (Seq<char>, Seq<char>);

    open spec fn deep_view(&self) -> (Seq<char>, Seq<char>) {
        self@
    }
}

/// The lockfiles a project of this kind may have.
pub open spec fn lockfiles_for(p: ProjectView) -> Seq<(Seq<char>, Seq<char>)> {
    let r = p.root;
    if p.kind == "rust"@ {
        seq![("Cargo.lock"@, r)]
    } else if p.kind == "node"@ {
        seq![("package-lock.json"@, r), ("pnpm-lock.yaml"@, r), ("yarn.lock"@, r)]
    } else if p.kind == "python"@ {
        seq![("poetry.lock"@, r), ("requirements.txt"@, r)]
    } else if p.kind == "go"@ {
        seq![("go.sum"@, r)]
    } else {
        Seq::empty()
    }
}

/// The lockfiles the projects may have, project by project.
pub open spec fn lockfile_candidates_for(ps: Seq<ProjectView>) -> Seq<(Seq<char>, Seq<char>)>
    decreases ps.len(),
{
    if ps.len() == 0 {
        Seq::empty()
    } else {
        lockfile_candidates_for(ps.drop_last()) + lockfiles_for(ps.last())
    }
}

fn candidate(filename: &str, root: &String) -> (r: LockfileCandidate)
    ensures
        r@ == (filename@, root@),
{
    LockfileCandidate { filename: lit(filename), project_root: root.clone() }
}

fn push_candidate(v: &mut Vec<LockfileCandidate>, c: LockfileCandidate)
    ensures
        final(v).deep_view() == old(v).deep_view().push(c@),
{
    let ghost v0 = v.deep_view();
    let ghost cv = c@;
    v.push(c);
    assert(v.deep_view() =~= v0.push(cv));
}

/// The lockfiles the detected projects may have (the candidates of
/// `detect_lockfiles`).
pub fn lockfile_candidates(projects: &Vec<DetectedProject>) -> (r: Vec<LockfileCandidate>)
    ensures
        r.deep_view() == lockfile_candidates_for(projects.deep_view()),
{
    let ghost pv = projects.deep_view();
    let mut out: Vec<LockfileCandidate> = Vec::new();
    let mut i: usize = 0;
    while i < projects.len()
        invariant
            pv == projects.deep_view(),
            i <= pv.len(),
            out.deep_view() == lockfile_candidates_for(pv.take(i as int)),
        decreases pv.len() - i,
    {
        assert(pv.take(i + 1).drop_last() =~= pv.take(i as int));
        let ghost o0 = out.deep_view();
        let p = &projects[i];
        let kind = p.kind.as_str();
        if str_eq(kind, "rust") {
            push_candidate(&mut out, candidate("Cargo.lock", &p.root));
        } else if str_eq(kind, "node") {
            push_candidate(&mut out, candidate("package-lock.json", &p.root));
            push_candidate(&mut out, candidate("pnpm-lock.yaml", &p.root));
            push_candidate(&mut out, candidate("yarn.lock", &p.root));
        } else if str_eq(kind, "python") {
            push_candidate(&mut out, candidate("poetry.lock", &p.root));
            push_candidate(&mut out, candidate("requirements.txt", &p.root));
        } else if str_eq(kind, "go") {
            push_candidate(&mut out, candidate("go.sum", &p.root));
        }
        assert(out.deep_view() =~= o0 + lockfiles_for(pv[i as int]));
        i += 1;
    }
    assert(pv.take(pv.len() as int) =~= pv);
    out
}

/// The manifest a lockfile is generated from; empty for one it is not.
pub open spec fn manifest_for(lockfile: Seq<char>) -> Seq<char> {
    if lockfile == "Cargo.lock"@ {
        "Cargo.toml"@
    } else if lockfile == "package-lock.json"@ || lockfile == "pnpm-lock.yaml"@ || lockfile
        == "yarn.lock"@ {
        "package.json"@
    } else if lockfile == "poetry.lock"@ {
        "pyproject.toml"@
    } else if lockfile == "go.sum"@ {
        "go.mod"@
    } else {
        Seq::empty()
    }
}

/// The manifest a lockfile is generated from.
pub fn detect_manifest_for(lockfile: &str) -> (r: String)
    ensures
        r@ == manifest_for(lockfile@),
{
    if str_eq(lockfile, "Cargo.lock") {
        lit("Cargo.toml")
    } else if str_eq(lockfile, "package-lock.json") || str_eq(lockfile, "pnpm-lock.yaml")
        || str_eq(lockfile, "yarn.lock") {
        lit("package.json")
    } else if str_eq(lockfile, "poetry.lock") {
        lit("pyproject.toml")
    } else if str_eq(lockfile, "go.sum") {
        lit("go.mod")
    } else {
        String::new()
    }
}

/// A lockfile is stale when it has a manifest and the manifest was modified
/// after it; when either time is unknown it is not.
pub open spec fn stale_of(manifest: Seq<char>, lock_modified: Option<i128>, manifest_modified: Option<i128>) -> bool {
    manifest.len() > 0 && match (lock_modified, manifest_modified) {
        (Some(l), Some(m)) => m > l,
        _ => false,
    }
}

/// Is the lockfile stale, given the manifest's name and both modification
/// times?
pub fn is_lockfile_stale(manifest_name: &str, lock_modified: Option<i128>, manifest_modified: Option<i128>) -> (r: bool)
    ensures
        r == stale_of(manifest_name@, lock_modified, manifest_modified),
{
    let c = chars_of(manifest_name);
    if c.len() == 0 {
        return false;
    }
    match (lock_modified, manifest_modified) {
        (Some(l), Some(m)) => m > l,
        _ => false,
    }
}

/// SHA-256 of the given bytes, as `sha2` computes it.
pub uninterp spec fn sha256(data: Seq<u8>) -> Seq<u8>;

/// Calls `sha2::Sha256::digest`. Claimed: the digest is `sha256` of the
/// bytes, and 32 bytes long (SHA-256's output size).
#[verifier::external_body]
fn sha256_digest(data: &[u8]) -> (r: Vec<u8>)
    ensures
        r@ == sha256(data@),
        r@.len() == 32,
{
    sha2::Sha256::digest(data).to_vec()
}

/// The lower-case hex digit of a value below 16.
pub open spec fn hex_digit(n: nat) -> char {
    if n < 10 {
        ((('0' as u32) + n) as u8) as char
    } else {
        ((('a' as u32) + n - 10) as u8) as char
    }
}

/// Bytes as lower-case hex, two digits each (`{:x}` of a digest).
pub open spec fn hex_lower(bytes: Seq<u8>) -> Seq<char>
    decreases bytes.len(),
{
    if bytes.len() == 0 {
        Seq::empty()
    } else {
        hex_lower(bytes.drop_last()) + seq![
            hex_digit((bytes.last() / 16) as nat),
            hex_digit((bytes.last() % 16) as nat),
        ]
    }
}

/// The short hash of a lockfile: the first 16 hex digits of its SHA-256.
pub open spec fn lockfile_hash(data: Seq<u8>) -> Seq<char> {
    hex_lower(sha256(data)).take(16)
}

fn hex_digit_exec(n: u8) -> (c: char)
    requires
        n < 16,
    ensures
        c == hex_digit(n as nat),
{
    if n < 10 {
        (48u8 + n) as char
    } else {
        (97u8 + n - 10) as char
    }
}

proof fn lemma_hex_len(bytes: Seq<u8>)
    ensures
        hex_lower(bytes).len() == 2 * bytes.len(),
    decreases bytes.len(),
{
    if bytes.len() > 0 {
        lemma_hex_len(bytes.drop_last());
    }
}

/// A lower-case hex digit.
pub open spec fn is_hex_digit(c: char) -> bool {
    ('0' <= c && c <= '9') || ('a' <= c && c <= 'f')
}

proof fn lemma_hex_digits(bytes: Seq<u8>)
    ensures
        forall|i: int| 0 <= i < hex_lower(bytes).len() ==> is_hex_digit(#[trigger] hex_lower(bytes)[i]),
    decreases bytes.len(),
{
    if bytes.len() > 0 {
        lemma_hex_digits(bytes.drop_last());
        let hi = (bytes.last() / 16) as u8;
        let lo = (bytes.last() % 16) as u8;
        assert(is_hex_digit(hex_digit(hi as nat)));
        assert(is_hex_digit(hex_digit(lo as nat)));
        let a = hex_lower(bytes.drop_last());
        let h = hex_lower(bytes);
        assert forall|i: int| 0 <= i < h.len() implies is_hex_digit(#[trigger] h[i]) by {
            if i < a.len() {
                assert(h[i] == a[i]);
            }
        }
    }
}

/// The short hash of a lockfile's bytes: the first 16 lower-case hex digits
/// of their SHA-256.
pub fn hash_bytes(data: &[u8]) -> (r: String)
    ensures
        r@ == lockfile_hash(data@),
        r@.len() == 16,
        forall|i: int| 0 <= i < 16 ==> is_hex_digit(#[trigger] r@[i]),
{
    let digest = sha256_digest(data);
    let mut hex: Vec<char> = Vec::new();
    let mut i: usize = 0;
    while i < digest.len()
        invariant
            i <= digest@.len(),
            hex@ == hex_lower(digest@.take(i as int)),
        decreases digest@.len() - i,
    {
        let b = digest[i];
        assert(digest@.take(i + 1).drop_last() =~= digest@.take(i as int));
        hex.push(hex_digit_exec(b / 16));
        hex.push(hex_digit_exec(b % 16));
        assert(hex@ =~= hex_lower(digest@.take(i + 1)));
        i += 1;
    }
    assert(digest@.take(digest@.len() as int) =~= digest@);
    proof {
        lemma_hex_len(digest@);
        lemma_hex_digits(digest@);
    }
    let short = crate::text::slice_vec(hex.as_slice(), 0, 16);
    assert(short@ =~= hex@.take(16));
    string_of(short.as_slice())
}

/// The path of a lockfile relative to the repository.
pub open spec fn lockfile_path(filename: Seq<char>, root: Seq<char>) -> Seq<char> {
    if root == "."@ {
        filename
    } else {
        root + "/"@ + filename
    }
}

/// What reading one candidate lockfile found: whether it exists, its bytes
/// (`None` when they could not be read), and the modification times of the
/// lockfile and of its manifest, in nanoseconds from the Unix epoch, negative
/// before it (`None` when unknown).
pub struct LockfileObservation {
    pub candidate: LockfileCandidate,
    pub exists: bool,
    pub contents: Option<Vec<u8>>,
    pub lock_modified: Option<i128>,
    pub manifest_modified: Option<i128>,
}

/// The view of a `LockfileObservation`.


pub struct LockfileObservationView {
    pub filename: Seq<char>,
    pub project_root: Seq<char>,
    pub exists: bool,
    pub contents: Option<Seq<u8>>,
    pub lock_modified: Option<i128>,
    pub manifest_modified: Option<i128>,
}

impl View for LockfileObservation {
    type V = LockfileObservationView;

    open spec fn view(&self) -> LockfileObservationView {
        LockfileObservationView {
            filename: self.candidate.filename@,
            project_root: self.candidate.project_root@,
            exists: self.exists,
            contents: match self.contents {
                Some(v) => Some(v@),
                None => None,
            },
            lock_modified: self.lock_modified,
            manifest_modified: self.manifest_modified,
        }
    }
}

impl DeepView for LockfileObservation {
    type V = LockfileObservationView;

    open spec fn deep_view(&self) -> LockfileObservationView {
        self@
    }
}

/// The lockfile an observation shows, if the file exists; an unreadable one
/// gets an empty hash.
pub open spec fn lockfile_of(o: LockfileObservationView) -> Option<LockfileInfoView> {
    if o.exists {
        Some(
            LockfileInfoView {
                path: lockfile_path(o.filename, o.project_root),
                hash: match o.contents {
                    Some(d) => lockfile_hash(d),
                    None => Seq::empty(),
                },
                stale: stale_of(manifest_for(o.filename), o.lock_modified, o.manifest_modified),
            },
        )
    } else {
        None
    }
}

/// The lockfiles among the observed candidates.
pub fn detect_lockfiles(observed: &Vec<LockfileObservation>) -> (r: Vec<LockfileInfo>)
    ensures
        r.deep_view() == observed.deep_view().filter_map(|o: LockfileObservationView| lockfile_of(o)),
{
    let ghost ov = observed.deep_view();
    let ghost f = |o: LockfileObservationView| lockfile_of(o);
    let mut out: Vec<LockfileInfo> = Vec::new();
    let mut i: usize = 0;
    while i < observed.len()
        invariant
            ov == observed.deep_view(),
            f == (|o: LockfileObservationView| lockfile_of(o)),
            i <= ov.len(),
            out.deep_view() == ov.take(i as int).filter_map(f),
        decreases ov.len() - i,
    {
        assert(ov.take(i + 1).drop_last() =~= ov.take(i as int));
        let o = &observed[i];
        if o.exists {
            let root = o.candidate.project_root.as_str();
            let filename = o.candidate.filename.as_str();
            let path = if str_eq(root, ".") {
                lit(filename)
            } else {
                let mut v: Vec<char> = chars_of(root);
                extend_str(&mut v, "/");
                extend_str(&mut v, filename);
                string_of(v.as_slice())
            };
            let hash = match &o.contents {
                Some(d) => hash_bytes(d.as_slice()),
                None => String::new(),
            };
            let manifest = detect_manifest_for(filename);
            let stale = is_lockfile_stale(manifest.as_str(), o.lock_modified, o.manifest_modified);
            let info = LockfileInfo { path, hash, stale };
            let ghost o0 = out.deep_view();
            let ghost iv = info@;
            assert(lockfile_of(ov[i as int]) == Some(iv));
            out.push(info);
            assert(out.deep_view() =~= o0 + seq![iv]);
        }
        i += 1;
    }
    assert(ov.take(ov.len() as int) =~= ov);
    out
}

// ---------------------------------------------------------------------------
// The assembled scan
// ---------------------------------------------------------------------------

/// The schema version a snapshot written before schemas were recorded is read
/// with.
pub fn default_scan_schema_version() -> (r: String)
    ensures
        r@ == "probe.scan.legacy"@,
{
    lit("probe.scan.legacy")
}

/// The argument list a command recorded without one is read with.
pub fn default_command_argv() -> (r: Vec<String>)
    ensures
        r@.len() == 0,
{
    Vec::new()
}

/// The working directory a command recorded without one is read with: the
/// repository root.
pub fn default_command_cwd() -> (r: String)
    ensures
        r@ == "."@,
{
    lit(".")
}

/// The scan of a repository from what was found in it: the suggested
/// commands follow from the projects.
pub fn assemble_scan(
    timestamp: String,
    repo_path: String,
    projects: Vec<DetectedProject>,
    git: Option<GitState>,
    tools: Vec<ToolInfo>,
    suite_tools: Vec<SuiteToolInfo>,
    lockfiles: Vec<LockfileInfo>,
) -> (r: ScanResult)
    ensures
        r@.schema_version == SCAN_SCHEMA_VERSION@,
        r@.timestamp == timestamp@,
        r@.repo_path == repo_path@,
        r@.projects == projects.deep_view(),
        r@.git == git.deep_view(),
        r@.tools == tools.deep_view(),
        r@.suite_tools == suite_tools.deep_view(),
        r@.lockfiles == lockfiles.deep_view(),
        r@.suggested_commands == suggested_for(projects.deep_view()),
{
    let suggested_commands = suggest_commands(&projects);
    ScanResult {
        schema_version: lit(SCAN_SCHEMA_VERSION),
        timestamp,
        repo_path,
        projects,
        git,
        tools,
        suite_tools,
        lockfiles,
        suggested_commands,
    }
}

/// Copies of strings.
pub fn copy_strings(v: &Vec<String>) -> (r: Vec<String>)
    ensures
        r.deep_view() == v.deep_view(),
{
    let mut r: Vec<String> = Vec::new();
    let mut i: usize = 0;
    while i < v.len()
        invariant
            i <= v@.len(),
            r.deep_view() == v.deep_view().take(i as int),
        decreases v@.len() - i,
    {
        let ghost r0 = r.deep_view();
        r.push(v[i].clone());
        assert(r.deep_view() =~= r0.push(v.deep_view()[i as int]));
        assert(v.deep_view().take(i + 1) =~= v.deep_view().take(i as int).push(v.deep_view()[i as int]));
        i += 1;
    }
    assert(v.deep_view().take(v@.len() as int) =~= v.deep_view());
    r
}

/// A copy of a suggested command.
pub fn copy_command(c: &SuggestedCommand) -> (r: SuggestedCommand)
    ensures
        r@ == c@,
{
    SuggestedCommand {
        action: c.action.clone(),
        command: c.command.clone(),
        argv: copy_strings(&c.argv),
        cwd: c.cwd.clone(),
        confidence: c.confidence.clone(),
        reason: c.reason.clone(),
    }
}

} // verus!
