//! The doctor: blockers, warnings, gates and an action level from a scan.
use vstd::prelude::*;

use crate::scan::{copy_command, ScanResult, ScanView, SuggestedCommand, SuggestedCommandView};
use crate::text::{chars_of, decimal, decimal_exec, extend_chars, extend_str, join, join_exec, lemma_char_deep_view, lit, str_eq, string_of};
use crate::tools::{copy_suite_tools, SuiteToolInfo, SuiteToolInfoView, ToolInfoView};
use crate::scan::LockfileInfoView;
use crate::seq_facts::{lemma_filter_map_contains, lemma_filter_map_empty};

verus! {

broadcast use vstd::string::group_string_axioms;

/// The schema a doctor report is written with.
pub const DOCTOR_SCHEMA_VERSION: &'static str = "probe.doctor.v1";

/// A finding: a stable code, a message, and detail.
pub struct DoctorIssue {
    pub code: String,
    pub message: String,
    pub detail: String,
}

/// The view of a `DoctorIssue`.


pub struct IssueView {
    pub code: Seq<char>,
    pub message: Seq<char>,
    pub detail: Seq<char>,
}

impl View for DoctorIssue {
    type V = IssueView;

    open spec fn view(&self) -> IssueView {
        IssueView { code: self.code@, message: self.message@, detail: self.detail@ }
    }
}

impl DeepView for DoctorIssue {
    type V = IssueView;

    open spec fn deep_view(&self) -> IssueView {
        self@
    }
}

/// A named health check: `ok`, `review` or `stop`, with the issue codes that
/// decided it.
pub struct DoctorGate {
    pub name: String,
    pub status: String,
    pub summary: String,
    pub issue_codes: Vec<String>,
}

/// The view of a `DoctorGate`.


pub struct GateView {
    pub name: Seq<char>,
    pub status: Seq<char>,
    pub summary: Seq<char>,
    pub issue_codes: Seq<Seq<char>>,
}

impl View for DoctorGate {
    type V = GateView;

    open spec fn view(&self) -> GateView {
        GateView {
            name: self.name@,
            status: self.status@,
            summary: self.summary@,
            issue_codes: self.issue_codes.deep_view(),
        }
    }
}

impl DeepView for DoctorGate {
    type V = GateView;

    open spec fn deep_view(&self) -> GateView {
        self@
    }
}

/// A recommended command, with the directory it runs in.
pub struct DoctorCommand {
    pub action: String,
    pub command: String,
    pub argv: Vec<String>,
    pub cwd: String,
    pub confidence: String,
    pub reason: String,
}

impl View for DoctorCommand {
    type V = SuggestedCommandView;

    open spec fn view(&self) -> SuggestedCommandView {
        SuggestedCommandView {
            action: self.action@,
            command: self.command@,
            argv: self.argv.deep_view(),
            cwd: self.cwd@,
            confidence: self.confidence@,
            reason: self.reason@,
        }
    }
}

impl DeepView for DoctorCommand {
    type V = SuggestedCommandView;

    open spec fn deep_view(&self) -> SuggestedCommandView {
        self@
    }
}

/// The doctor's summary of a scan.
pub struct DoctorReport {
    pub schema_version: String,
    pub status: String,
    pub action_level: String,
    pub repo_path: String,
    pub gates: Vec<DoctorGate>,
    pub blockers: Vec<DoctorIssue>,
    pub warnings: Vec<DoctorIssue>,
    pub next_commands: Vec<DoctorCommand>,
    pub recommended_commands: Vec<DoctorCommand>,
    pub suite_tools: Vec<SuiteToolInfo>,
}

/// The view of a `DoctorReport`.


pub struct DoctorView {
    pub schema_version: Seq<char>,
    pub status: Seq<char>,
    pub action_level: Seq<char>,
    pub repo_path: Seq<char>,
    pub gates: Seq<GateView>,
    pub blockers: Seq<IssueView>,
    pub warnings: Seq<IssueView>,
    pub next_commands: Seq<SuggestedCommandView>,
    pub recommended_commands: Seq<SuggestedCommandView>,
    pub suite_tools: Seq<SuiteToolInfoView>,
}

impl View for DoctorReport {
    type V = DoctorView;

    open spec fn view(&self) -> DoctorView {
        DoctorView {
            schema_version: self.schema_version@,
            status: self.status@,
            action_level: self.action_level@,
            repo_path: self.repo_path@,
            gates: self.gates.deep_view(),
            blockers: self.blockers.deep_view(),
            warnings: self.warnings.deep_view(),
            next_commands: self.next_commands.deep_view(),
            recommended_commands: self.recommended_commands.deep_view(),
            suite_tools: self.suite_tools.deep_view(),
        }
    }
}

// ---------------------------------------------------------------------------
// Issues
// ---------------------------------------------------------------------------

pub open spec fn issue_of(code: Seq<char>, message: Seq<char>, detail: Seq<char>) -> IssueView {
    IssueView { code, message, detail }
}

/// Tools whose absence stops work on a stack.
pub open spec fn is_required_tool(name: Seq<char>) -> bool {
    name == "cargo"@ || name == "rustc"@ || name == "node"@ || name == "npm"@ || name == "pnpm"@
        || name == "yarn"@ || name == "python3"@ || name == "go"@
}

/// Is a missing tool of this name a blocker?
pub fn is_required_tool_exec(name: &str) -> (r: bool)
    ensures
        r == is_required_tool(name@),
{
    str_eq(name, "cargo") || str_eq(name, "rustc") || str_eq(name, "node") || str_eq(name, "npm")
        || str_eq(name, "pnpm") || str_eq(name, "yarn") || str_eq(name, "python3") || str_eq(
        name,
        "go",
    )
}

/// The blocker a missing required tool raises.
pub open spec fn missing_tool_blocker(t: ToolInfoView) -> Option<IssueView> {
    if !t.available && is_required_tool(t.name) {
        Some(
            issue_of(
                "tool_missing"@,
                "Required tool missing: "@ + t.name,
                "Install "@ + t.name + " or make it available on PATH"@,
            ),
        )
    } else {
        None
    }
}

/// The warning a missing optional tool raises.
pub open spec fn missing_tool_warning(t: ToolInfoView) -> Option<IssueView> {
    if !t.available && !is_required_tool(t.name) {
        Some(
            issue_of(
                "tool_unavailable"@,
                "Optional tool unavailable: "@ + t.name,
                "Some validation commands may be unavailable"@,
            ),
        )
    } else {
        None
    }
}

/// The warning a stale lockfile raises.
pub open spec fn stale_lockfile_warning(l: LockfileInfoView) -> Option<IssueView> {
    if l.stale {
        Some(
            issue_of(
                "lockfile_stale"@,
                "Lockfile may be stale: "@ + l.path,
                "Manifest modification time is newer than the lockfile"@,
            ),
        )
    } else {
        None
    }
}

/// The blockers of a scan: one per missing required tool.
pub open spec fn blockers_of(s: ScanView) -> Seq<IssueView> {
    s.tools.filter_map(|t: ToolInfoView| missing_tool_blocker(t))
}

/// `x` when `b`, else nothing.
pub open spec fn when(b: bool, x: IssueView) -> Seq<IssueView> {
    if b {
        seq![x]
    } else {
        Seq::empty()
    }
}

/// The warnings about the working tree, when git state is known.
pub open spec fn git_warnings(s: ScanView) -> Seq<IssueView> {
    match s.git {
        Some(g) => when(
            g.dirty_count > 0 || g.untracked_count > 0,
            issue_of(
                "git_dirty"@,
                "Repository has modified files"@,
                decimal(g.dirty_count) + " dirty, "@ + decimal(g.untracked_count) + " untracked"@,
            ),
        ) + match g.behind {
            Some(n) => when(
                n > 0,
                issue_of(
                    "git_behind"@,
                    "Branch is behind upstream"@,
                    decimal(n) + " commits behind upstream"@,
                ),
            ),
            None => Seq::empty(),
        },
        None => Seq::empty(),
    }
}

/// The warnings of a scan, in the order the doctor raises them.
pub open spec fn warnings_of(s: ScanView) -> Seq<IssueView> {
    when(
        s.projects.len() == 0,
        issue_of(
            "no_projects_detected"@,
            "No supported project manifests detected"@,
            "Supported stacks: Rust, Node, Python, Go, Tauri"@,
        ),
    ) + when(
        s.git is None,
        issue_of(
            "git_unavailable"@,
            "Git state is unavailable"@,
            "This path is not a git repository, or git could not inspect it"@,
        ),
    ) + s.tools.filter_map(|t: ToolInfoView| missing_tool_warning(t)) + s.lockfiles.filter_map(
        |l: LockfileInfoView| stale_lockfile_warning(l),
    ) + git_warnings(s) + when(
        s.suggested_commands.len() == 0,
        issue_of(
            "no_commands_inferred"@,
            "No validation commands inferred"@,
            "Add project manifests or run project-specific commands manually"@,
        ),
    )
}

/// `blocked` with blockers, `caution` with warnings only, else `ready`.
pub open spec fn status_of(blockers: Seq<IssueView>, warnings: Seq<IssueView>) -> Seq<char> {
    if blockers.len() > 0 {
        "blocked"@
    } else if warnings.len() > 0 {
        "caution"@
    } else {
        "ready"@
    }
}

/// `stop` with blockers, `review` with warnings only, `validate` when there
/// are commands to run, else `none`.
pub open spec fn action_level_of(blockers: Seq<IssueView>, warnings: Seq<IssueView>, commands: nat) -> Seq<char> {
    if blockers.len() > 0 {
        "stop"@
    } else if warnings.len() > 0 {
        "review"@
    } else if commands > 0 {
        "validate"@
    } else {
        "none"@
    }
}

fn issue(code: &str, message: Vec<char>, detail: Vec<char>) -> (r: DoctorIssue)
    ensures
        r@ == issue_of(code@, message@, detail@),
{
    DoctorIssue {
        code: lit(code),
        message: string_of(message.as_slice()),
        detail: string_of(detail.as_slice()),
    }
}

fn text(s: &str) -> (r: Vec<char>)
    ensures
        r@ == s@,
{
    chars_of(s)
}

fn text2(a: &str, b: &[char]) -> (r: Vec<char>)
    ensures
        r@ == a@ + b@,
{
    let mut v = chars_of(a);
    extend_chars(&mut v, b);
    v
}

fn push_issue(v: &mut Vec<DoctorIssue>, i: DoctorIssue)
    ensures
        final(v).deep_view() == old(v).deep_view().push(i@),
{
    let ghost v0 = v.deep_view();
    let ghost iv = i@;
    v.push(i);
    assert(v.deep_view() =~= v0.push(iv));
}

/// The blockers of a scan.
fn build_blockers(scan: &ScanResult) -> (r: Vec<DoctorIssue>)
    ensures
        r.deep_view() == blockers_of(scan@),
{
    let ghost tv = scan.tools.deep_view();
    let ghost f = |t: ToolInfoView| missing_tool_blocker(t);
    let mut out: Vec<DoctorIssue> = Vec::new();
    let mut i: usize = 0;
    while i < scan.tools.len()
        invariant
            tv == scan.tools.deep_view(),
            f == (|t: ToolInfoView| missing_tool_blocker(t)),
            i <= tv.len(),
            out.deep_view() == tv.take(i as int).filter_map(f),
        decreases tv.len() - i,
    {
        assert(tv.take(i + 1).drop_last() =~= tv.take(i as int));
        let t = &scan.tools[i];
        if !t.available && is_required_tool_exec(t.name.as_str()) {
            let name = chars_of(t.name.as_str());
            let mut detail = text2("Install ", name.as_slice());
            extend_str(&mut detail, " or make it available on PATH");
            let ghost o0 = out.deep_view();
            push_issue(&mut out, issue("tool_missing", text2("Required tool missing: ", name.as_slice()), detail));
            assert(out.deep_view() =~= o0 + seq![missing_tool_blocker(tv[i as int])->0]);
        }
        i += 1;
    }
    assert(tv.take(tv.len() as int) =~= tv);
    out
}

fn append_issues(a: &mut Vec<DoctorIssue>, b: Vec<DoctorIssue>)
    ensures
        final(a).deep_view() == old(a).deep_view() + b.deep_view(),
{
    let ghost a0 = a.deep_view();
    let mut b = b;
    let ghost bv = b.deep_view();
    a.append(&mut b);
    assert(a.deep_view() =~= a0 + bv);
}

fn tool_warnings(scan: &ScanResult) -> (r: Vec<DoctorIssue>)
    ensures
        r.deep_view() == scan@.tools.filter_map(|t: ToolInfoView| missing_tool_warning(t)),
{
    let ghost tv = scan.tools.deep_view();
    let ghost f = |t: ToolInfoView| missing_tool_warning(t);
    let mut out: Vec<DoctorIssue> = Vec::new();
    let mut i: usize = 0;
    while i < scan.tools.len()
        invariant
            tv == scan.tools.deep_view(),
            f == (|t: ToolInfoView| missing_tool_warning(t)),
            i <= tv.len(),
            out.deep_view() == tv.take(i as int).filter_map(f),
        decreases tv.len() - i,
    {
        assert(tv.take(i + 1).drop_last() =~= tv.take(i as int));
        let t = &scan.tools[i];
        if !t.available && !is_required_tool_exec(t.name.as_str()) {
            let name = chars_of(t.name.as_str());
            let ghost o0 = out.deep_view();
            push_issue(&mut out, issue("tool_unavailable", text2("Optional tool unavailable: ", name.as_slice()), text("Some validation commands may be unavailable")));
            assert(out.deep_view() =~= o0 + seq![missing_tool_warning(tv[i as int])->0]);
        }
        i += 1;
    }
    assert(tv.take(tv.len() as int) =~= tv);
    out
}

fn lockfile_warnings(scan: &ScanResult) -> (r: Vec<DoctorIssue>)
    ensures
        r.deep_view() == scan@.lockfiles.filter_map(|l: LockfileInfoView| stale_lockfile_warning(l)),
{
    let ghost lv = scan.lockfiles.deep_view();
    let ghost f = |l: LockfileInfoView| stale_lockfile_warning(l);
    let mut out: Vec<DoctorIssue> = Vec::new();
    let mut i: usize = 0;
    while i < scan.lockfiles.len()
        invariant
            lv == scan.lockfiles.deep_view(),
            f == (|l: LockfileInfoView| stale_lockfile_warning(l)),
            i <= lv.len(),
            out.deep_view() == lv.take(i as int).filter_map(f),
        decreases lv.len() - i,
    {
        assert(lv.take(i + 1).drop_last() =~= lv.take(i as int));
        let l = &scan.lockfiles[i];
        if l.stale {
            let path = chars_of(l.path.as_str());
            let ghost o0 = out.deep_view();
            push_issue(&mut out, issue("lockfile_stale", text2("Lockfile may be stale: ", path.as_slice()), text("Manifest modification time is newer than the lockfile")));
            assert(out.deep_view() =~= o0 + seq![stale_lockfile_warning(lv[i as int])->0]);
        }
        i += 1;
    }
    assert(lv.take(lv.len() as int) =~= lv);
    out
}

fn git_warnings_exec(scan: &ScanResult) -> (r: Vec<DoctorIssue>)
    ensures
        r.deep_view() == git_warnings(scan@),
{
    let mut out: Vec<DoctorIssue> = Vec::new();
    match &scan.git {
        Some(g) => {
            if g.dirty_count > 0 || g.untracked_count > 0 {
                let mut detail = decimal_exec(g.dirty_count);
                extend_str(&mut detail, " dirty, ");
                let u = decimal_exec(g.untracked_count);
                extend_chars(&mut detail, u.as_slice());
                extend_str(&mut detail, " untracked");
                push_issue(&mut out, issue("git_dirty", text("Repository has modified files"), detail));
            }
            let ghost o0 = out.deep_view();
            match g.behind {
                Some(n) => {
                    if n > 0 {
                        let mut detail = decimal_exec(n);
                        extend_str(&mut detail, " commits behind upstream");
                        push_issue(&mut out, issue("git_behind", text("Branch is behind upstream"), detail));
                    }
                },
                None => {},
            }
            assert(out.deep_view() =~= git_warnings(scan@));
        },
        None => {
            assert(out.deep_view() =~= git_warnings(scan@));
        },
    }
    out
}

/// The warnings of a scan.
fn build_warnings(scan: &ScanResult) -> (r: Vec<DoctorIssue>)
    ensures
        r.deep_view() == warnings_of(scan@),
{
    let mut out: Vec<DoctorIssue> = Vec::new();
    if scan.projects.len() == 0 {
        push_issue(&mut out, issue("no_projects_detected", text("No supported project manifests detected"), text("Supported stacks: Rust, Node, Python, Go, Tauri")));
    }
    let ghost w1 = out.deep_view();
    if scan.git.is_none() {
        push_issue(&mut out, issue("git_unavailable", text("Git state is unavailable"), text("This path is not a git repository, or git could not inspect it")));
    }
    let ghost w2 = out.deep_view();
    append_issues(&mut out, tool_warnings(scan));
    append_issues(&mut out, lockfile_warnings(scan));
    append_issues(&mut out, git_warnings_exec(scan));
    let ghost w3 = out.deep_view();
    if scan.suggested_commands.len() == 0 {
        push_issue(&mut out, issue("no_commands_inferred", text("No validation commands inferred"), text("Add project manifests or run project-specific commands manually")));
    }
    assert(out.deep_view() =~= warnings_of(scan@));
    out
}

// ---------------------------------------------------------------------------
// Gates
// ---------------------------------------------------------------------------

/// The codes of `issues` that are among `relevant`, in issue order.
pub open spec fn matching_codes(relevant: Seq<Seq<char>>, issues: Seq<IssueView>) -> Seq<Seq<char>> {
    issues.filter_map(|i: IssueView| if relevant.contains(i.code) { Some(i.code) } else { None })
}

/// A gate: `stop` with the relevant blocker codes, else `review` with the
/// relevant warning codes, else `ok` with its own summary.
pub open spec fn gate_of(
    name: Seq<char>,
    relevant: Seq<Seq<char>>,
    blockers: Seq<IssueView>,
    warnings: Seq<IssueView>,
    ok_summary: Seq<char>,
) -> GateView {
    let bc = matching_codes(relevant, blockers);
    let wc = matching_codes(relevant, warnings);
    if bc.len() > 0 {
        GateView { name, status: "stop"@, summary: "Needs attention: "@ + join(bc, ", "@), issue_codes: bc }
    } else if wc.len() > 0 {
        GateView { name, status: "review"@, summary: "Needs attention: "@ + join(wc, ", "@), issue_codes: wc }
    } else {
        GateView { name, status: "ok"@, summary: ok_summary, issue_codes: Seq::empty() }
    }
}

/// The codes of `issues` that are among `relevant`.
pub fn matching_codes_exec(relevant: &Vec<String>, issues: &Vec<DoctorIssue>) -> (r: Vec<String>)
    ensures
        r.deep_view() == matching_codes(relevant.deep_view(), issues.deep_view()),
{
    let ghost iv = issues.deep_view();
    let ghost rv = relevant.deep_view();
    let ghost f = |i: IssueView| if rv.contains(i.code) { Some(i.code) } else { None };
    let mut out: Vec<String> = Vec::new();
    let mut i: usize = 0;
    while i < issues.len()
        invariant
            iv == issues.deep_view(),
            rv == relevant.deep_view(),
            f == (|i: IssueView| if rv.contains(i.code) { Some(i.code) } else { None }),
            i <= iv.len(),
            out.deep_view() == iv.take(i as int).filter_map(f),
        decreases iv.len() - i,
    {
        assert(iv.take(i + 1).drop_last() =~= iv.take(i as int));
        let mut found = false;
        let mut k: usize = 0;
        while k < relevant.len()
            invariant
                rv == relevant.deep_view(),
                iv == issues.deep_view(),
                i < iv.len(),
                k <= rv.len(),
                found ==> rv.contains(iv[i as int].code),
                !found ==> forall|x: int| 0 <= x < k ==> rv[x] != iv[i as int].code,
            decreases rv.len() - k,
        {
            if str_eq(relevant[k].as_str(), issues[i].code.as_str()) {
                assert(rv[k as int] == iv[i as int].code);
                found = true;
            }
            k += 1;
        }
        if found {
            let ghost o0 = out.deep_view();
            out.push(issues[i].code.clone());
            assert(out.deep_view() =~= o0 + seq![iv[i as int].code]);
        }
        i += 1;
    }
    assert(iv.take(iv.len() as int) =~= iv);
    out
}

fn needs_attention(codes: &Vec<String>) -> (r: String)
    ensures
        r@ == "Needs attention: "@ + join(codes.deep_view(), ", "@),
{
    let mut parts: Vec<Vec<char>> = Vec::new();
    let mut i: usize = 0;
    while i < codes.len()
        invariant
            i <= codes@.len(),
            parts.deep_view() == codes.deep_view().take(i as int),
        decreases codes@.len() - i,
    {
        let c = chars_of(codes[i].as_str());
        proof {
            lemma_char_deep_view(c);
        }
        let ghost p0 = parts.deep_view();
        let ghost cv = c@;
        parts.push(c);
        assert(parts.deep_view() =~= p0.push(cv));
        assert(codes.deep_view().take(i + 1) =~= codes.deep_view().take(i as int).push(codes@[i as int]@));
        i += 1;
    }
    assert(codes.deep_view().take(codes@.len() as int) =~= codes.deep_view());
    let sep = chars_of(", ");
    let j = join_exec(&parts, sep.as_slice());
    let mut v = chars_of("Needs attention: ");
    extend_chars(&mut v, j.as_slice());
    string_of(v.as_slice())
}

/// A gate over the given issue codes.
pub fn gate(
    name: &str,
    relevant: &Vec<String>,
    blockers: &Vec<DoctorIssue>,
    warnings: &Vec<DoctorIssue>,
    ok_summary: String,
) -> (r: DoctorGate)
    ensures
        r@ == gate_of(name@, relevant.deep_view(), blockers.deep_view(), warnings.deep_view(), ok_summary@),
{
    let bc = matching_codes_exec(relevant, blockers);
    if bc.len() > 0 {
        let summary = needs_attention(&bc);
        return DoctorGate { name: lit(name), status: lit("stop"), summary, issue_codes: bc };
    }
    let wc = matching_codes_exec(relevant, warnings);
    if wc.len() > 0 {
        let summary = needs_attention(&wc);
        return DoctorGate { name: lit(name), status: lit("review"), summary, issue_codes: wc };
    }
    let issue_codes: Vec<String> = Vec::new();
    assert(issue_codes.deep_view() =~= Seq::<Seq<char>>::empty());
    DoctorGate { name: lit(name), status: lit("ok"), summary: ok_summary, issue_codes }
}

/// How many tools answered.
pub open spec fn available_count(ts: Seq<ToolInfoView>) -> nat
    decreases ts.len(),
{
    if ts.len() == 0 {
        0
    } else {
        available_count(ts.drop_last()) + if ts.last().available {
            1nat
        } else {
            0nat
        }
    }
}

/// How many lockfiles are stale.
pub open spec fn stale_count(ls: Seq<LockfileInfoView>) -> nat
    decreases ls.len(),
{
    if ls.len() == 0 {
        0
    } else {
        stale_count(ls.drop_last()) + if ls.last().stale {
            1nat
        } else {
            0nat
        }
    }
}

/// How many suite tools are installed.
pub open spec fn installed_count(ts: Seq<SuiteToolInfoView>) -> nat
    decreases ts.len(),
{
    if ts.len() == 0 {
        0
    } else {
        installed_count(ts.drop_last()) + if ts.last().installed {
            1nat
        } else {
            0nat
        }
    }
}

/// How many suite tools are linked to the repository.
pub open spec fn initialized_count(ts: Seq<SuiteToolInfoView>) -> nat
    decreases ts.len(),
{
    if ts.len() == 0 {
        0
    } else {
        initialized_count(ts.drop_last()) + if ts.last().initialized {
            1nat
        } else {
            0nat
        }
    }
}

/// The summary of the `project` gate when it passes.
pub open spec fn project_summary(s: ScanView) -> Seq<char> {
    if s.projects.len() == 0 {
        "No supported project manifest detected"@
    } else {
        decimal(s.projects.len()) + " supported project stack(s) detected"@
    }
}

/// The summary of the `git_state` gate when it passes.
pub open spec fn git_summary(s: ScanView) -> Seq<char> {
    match s.git {
        Some(g) => g.branch + " @ "@ + g.head_sha + "; "@ + decimal(g.dirty_count) + " dirty, "@
            + decimal(g.untracked_count) + " untracked"@,
        None => "Git state unavailable"@,
    }
}

/// The summary of the `tools` gate when it passes.
pub open spec fn tools_summary(s: ScanView) -> Seq<char> {
    decimal(available_count(s.tools)) + "/"@ + decimal(s.tools.len()) + " stack tool(s) available"@
}

/// The summary of the `lockfiles` gate when it passes.
pub open spec fn lockfiles_summary(s: ScanView) -> Seq<char> {
    if s.lockfiles.len() == 0 {
        "No lockfiles detected"@
    } else {
        decimal(s.lockfiles.len()) + " lockfile(s), "@ + decimal(stale_count(s.lockfiles)) + " stale"@
    }
}

/// The summary of the `commands` gate when it passes.
pub open spec fn commands_summary(s: ScanView) -> Seq<char> {
    if s.suggested_commands.len() == 0 {
        "No validation commands inferred"@
    } else {
        decimal(s.suggested_commands.len()) + " recommended command(s)"@
    }
}

/// The summary of the `suite_tools` gate.
pub open spec fn suite_summary(s: ScanView) -> Seq<char> {
    decimal(installed_count(s.suite_tools)) + "/"@ + decimal(s.suite_tools.len())
        + " suite tool(s) installed; "@ + decimal(initialized_count(s.suite_tools))
        + " linked/initialized for this repo"@
}

/// The six gates, in order: project, git_state, tools, lockfiles, commands,
/// suite_tools (which is informational and always `ok`).
pub open spec fn gates_of(s: ScanView, blockers: Seq<IssueView>, warnings: Seq<IssueView>) -> Seq<GateView> {
    seq![
        gate_of("project"@, seq!["no_projects_detected"@], blockers, warnings, project_summary(s)),
        gate_of(
            "git_state"@,
            seq!["git_unavailable"@, "git_dirty"@, "git_behind"@],
            blockers,
            warnings,
            git_summary(s),
        ),
        gate_of("tools"@, seq!["tool_missing"@, "tool_unavailable"@], blockers, warnings, tools_summary(s)),
        gate_of("lockfiles"@, seq!["lockfile_stale"@], blockers, warnings, lockfiles_summary(s)),
        gate_of("commands"@, seq!["no_commands_inferred"@], blockers, warnings, commands_summary(s)),
        GateView { name: "suite_tools"@, status: "ok"@, summary: suite_summary(s), issue_codes: Seq::empty() },
    ]
}

fn codes1(a: &str) -> (r: Vec<String>)
    ensures
        r.deep_view() == seq![a@],
{
    let mut r: Vec<String> = Vec::new();
    r.push(lit(a));
    assert(r.deep_view() =~= seq![a@]);
    r
}

fn codes2(a: &str, b: &str) -> (r: Vec<String>)
    ensures
        r.deep_view() == seq![a@, b@],
{
    let mut r: Vec<String> = Vec::new();
    r.push(lit(a));
    r.push(lit(b));
    assert(r.deep_view() =~= seq![a@, b@]);
    r
}

fn codes3(a: &str, b: &str, c: &str) -> (r: Vec<String>)
    ensures
        r.deep_view() == seq![a@, b@, c@],
{
    let mut r: Vec<String> = Vec::new();
    r.push(lit(a));
    r.push(lit(b));
    r.push(lit(c));
    assert(r.deep_view() =~= seq![a@, b@, c@]);
    r
}

fn count_available(scan: &ScanResult) -> (r: usize)
    ensures
        r as nat == available_count(scan@.tools),
{
    let ghost tv = scan.tools.deep_view();
    let mut n: usize = 0;
    let mut i: usize = 0;
    while i < scan.tools.len()
        invariant
            tv == scan.tools.deep_view(),
            i <= tv.len(),
            n as nat == available_count(tv.take(i as int)),
            n <= i,
        decreases tv.len() - i,
    {
        assert(tv.take(i + 1).drop_last() =~= tv.take(i as int));
        if scan.tools[i].available {
            n += 1;
        }
        i += 1;
    }
    assert(tv.take(tv.len() as int) =~= tv);
    n
}

fn count_stale(scan: &ScanResult) -> (r: usize)
    ensures
        r as nat == stale_count(scan@.lockfiles),
{
    let ghost lv = scan.lockfiles.deep_view();
    let mut n: usize = 0;
    let mut i: usize = 0;
    while i < scan.lockfiles.len()
        invariant
            lv == scan.lockfiles.deep_view(),
            i <= lv.len(),
            n as nat == stale_count(lv.take(i as int)),
            n <= i,
        decreases lv.len() - i,
    {
        assert(lv.take(i + 1).drop_last() =~= lv.take(i as int));
        if scan.lockfiles[i].stale {
            n += 1;
        }
        i += 1;
    }
    assert(lv.take(lv.len() as int) =~= lv);
    n
}

fn count_suite(scan: &ScanResult) -> (r: (usize, usize))
    ensures
        r.0 as nat == installed_count(scan@.suite_tools),
        r.1 as nat == initialized_count(scan@.suite_tools),
{
    let ghost sv = scan.suite_tools.deep_view();
    let mut a: usize = 0;
    let mut b: usize = 0;
    let mut i: usize = 0;
    while i < scan.suite_tools.len()
        invariant
            sv == scan.suite_tools.deep_view(),
            i <= sv.len(),
            a as nat == installed_count(sv.take(i as int)),
            b as nat == initialized_count(sv.take(i as int)),
            a <= i,
            b <= i,
        decreases sv.len() - i,
    {
        assert(sv.take(i + 1).drop_last() =~= sv.take(i as int));
        if scan.suite_tools[i].installed {
            a += 1;
        }
        if scan.suite_tools[i].initialized {
            b += 1;
        }
        i += 1;
    }
    assert(sv.take(sv.len() as int) =~= sv);
    (a, b)
}

fn push_gate(v: &mut Vec<DoctorGate>, g: DoctorGate)
    ensures
        final(v).deep_view() == old(v).deep_view().push(g@),
{
    let ghost v0 = v.deep_view();
    let ghost gv = g@;
    v.push(g);
    assert(v.deep_view() =~= v0.push(gv));
}

fn project_summary_exec(scan: &ScanResult) -> (r: String)
    ensures
        r@ == project_summary(scan@),
{
    if scan.projects.len() == 0 {
        lit("No supported project manifest detected")
    } else {
        let mut v = decimal_exec(scan.projects.len());
        extend_str(&mut v, " supported project stack(s) detected");
        string_of(v.as_slice())
    }
}

fn git_summary_exec(scan: &ScanResult) -> (r: String)
    ensures
        r@ == git_summary(scan@),
{
    match &scan.git {
        Some(g) => {
            let mut v = chars_of(g.branch.as_str());
            extend_str(&mut v, " @ ");
            extend_str(&mut v, g.head_sha.as_str());
            extend_str(&mut v, "; ");
            let d = decimal_exec(g.dirty_count);
            extend_chars(&mut v, d.as_slice());
            extend_str(&mut v, " dirty, ");
            let u = decimal_exec(g.untracked_count);
            extend_chars(&mut v, u.as_slice());
            extend_str(&mut v, " untracked");
            string_of(v.as_slice())
        },
        None => lit("Git state unavailable"),
    }
}

fn tools_summary_exec(scan: &ScanResult) -> (r: String)
    ensures
        r@ == tools_summary(scan@),
{
    let mut v = decimal_exec(count_available(scan));
    extend_str(&mut v, "/");
    let n = decimal_exec(scan.tools.len());
    extend_chars(&mut v, n.as_slice());
    extend_str(&mut v, " stack tool(s) available");
    string_of(v.as_slice())
}

fn lockfiles_summary_exec(scan: &ScanResult) -> (r: String)
    ensures
        r@ == lockfiles_summary(scan@),
{
    if scan.lockfiles.len() == 0 {
        lit("No lockfiles detected")
    } else {
        let mut v = decimal_exec(scan.lockfiles.len());
        extend_str(&mut v, " lockfile(s), ");
        let s = decimal_exec(count_stale(scan));
        extend_chars(&mut v, s.as_slice());
        extend_str(&mut v, " stale");
        string_of(v.as_slice())
    }
}

fn commands_summary_exec(scan: &ScanResult) -> (r: String)
    ensures
        r@ == commands_summary(scan@),
{
    if scan.suggested_commands.len() == 0 {
        lit("No validation commands inferred")
    } else {
        let mut v = decimal_exec(scan.suggested_commands.len());
        extend_str(&mut v, " recommended command(s)");
        string_of(v.as_slice())
    }
}

/// The summary of the suite-tools gate.
pub fn summarize_suite_tools(scan: &ScanResult) -> (r: String)
    ensures
        r@ == suite_summary(scan@),
{
    let (installed, linked) = count_suite(scan);
    let mut v = decimal_exec(installed);
    extend_str(&mut v, "/");
    let n = decimal_exec(scan.suite_tools.len());
    extend_chars(&mut v, n.as_slice());
    extend_str(&mut v, " suite tool(s) installed; ");
    let l = decimal_exec(linked);
    extend_chars(&mut v, l.as_slice());
    extend_str(&mut v, " linked/initialized for this repo");
    string_of(v.as_slice())
}

/// The gates of a scan with these findings.
pub fn build_gates(scan: &ScanResult, blockers: &Vec<DoctorIssue>, warnings: &Vec<DoctorIssue>) -> (r: Vec<DoctorGate>)
    ensures
        r.deep_view() == gates_of(scan@, blockers.deep_view(), warnings.deep_view()),
{
    let mut out: Vec<DoctorGate> = Vec::new();
    push_gate(&mut out, gate("project", &codes1("no_projects_detected"), blockers, warnings, project_summary_exec(scan)));
    push_gate(&mut out, gate("git_state", &codes3("git_unavailable", "git_dirty", "git_behind"), blockers, warnings, git_summary_exec(scan)));
    push_gate(&mut out, gate("tools", &codes2("tool_missing", "tool_unavailable"), blockers, warnings, tools_summary_exec(scan)));
    push_gate(&mut out, gate("lockfiles", &codes1("lockfile_stale"), blockers, warnings, lockfiles_summary_exec(scan)));
    push_gate(&mut out, gate("commands", &codes1("no_commands_inferred"), blockers, warnings, commands_summary_exec(scan)));
    let no_codes: Vec<String> = Vec::new();
    assert(no_codes.deep_view() =~= Seq::<Seq<char>>::empty());
    push_gate(&mut out, DoctorGate { name: lit("suite_tools"), status: lit("ok"), summary: summarize_suite_tools(scan), issue_codes: no_codes });
    assert(out.deep_view() =~= gates_of(scan@, blockers.deep_view(), warnings.deep_view()));
    out
}

// ---------------------------------------------------------------------------
// The report
// ---------------------------------------------------------------------------

fn doctor_command(c: &SuggestedCommand) -> (r: DoctorCommand)
    ensures
        r@ == c@,
{
    let c2 = copy_command(c);
    DoctorCommand {
        action: c2.action,
        command: c2.command,
        argv: c2.argv,
        cwd: c2.cwd,
        confidence: c2.confidence,
        reason: c2.reason,
    }
}

fn doctor_commands(v: &Vec<SuggestedCommand>) -> (r: Vec<DoctorCommand>)
    ensures
        r.deep_view() == v.deep_view(),
{
    let mut r: Vec<DoctorCommand> = Vec::new();
    let mut i: usize = 0;
    while i < v.len()
        invariant
            i <= v@.len(),
            r.deep_view() == v.deep_view().take(i as int),
        decreases v@.len() - i,
    {
        let ghost r0 = r.deep_view();
        r.push(doctor_command(&v[i]));
        assert(r.deep_view() =~= r0.push(v.deep_view()[i as int]));
        assert(v.deep_view().take(i + 1) =~= v.deep_view().take(i as int).push(v.deep_view()[i as int]));
        i += 1;
    }
    assert(v.deep_view().take(v@.len() as int) =~= v.deep_view());
    r
}

/// The doctor's report on a scan.
pub fn build_report(scan: &ScanResult) -> (r: DoctorReport)
    ensures
        r@.schema_version == DOCTOR_SCHEMA_VERSION@,
        r@.blockers == blockers_of(scan@),
        r@.warnings == warnings_of(scan@),
        r@.status == status_of(blockers_of(scan@), warnings_of(scan@)),
        r@.action_level == action_level_of(
            blockers_of(scan@),
            warnings_of(scan@),
            scan@.suggested_commands.len(),
        ),
        r@.repo_path == scan@.repo_path,
        r@.gates == gates_of(scan@, blockers_of(scan@), warnings_of(scan@)),
        r@.recommended_commands == scan@.suggested_commands,
        r@.next_commands == scan@.suggested_commands,
        r@.suite_tools == scan@.suite_tools,
{
    let blockers = build_blockers(scan);
    let warnings = build_warnings(scan);
    let status = if blockers.len() > 0 {
        lit("blocked")
    } else if warnings.len() > 0 {
        lit("caution")
    } else {
        lit("ready")
    };
    let action_level = if blockers.len() > 0 {
        lit("stop")
    } else if warnings.len() > 0 {
        lit("review")
    } else if scan.suggested_commands.len() > 0 {
        lit("validate")
    } else {
        lit("none")
    };
    let recommended_commands = doctor_commands(&scan.suggested_commands);
    let next_commands = doctor_commands(&scan.suggested_commands);
    let gates = build_gates(scan, &blockers, &warnings);
    DoctorReport {
        schema_version: lit(DOCTOR_SCHEMA_VERSION),
        status,
        action_level,
        repo_path: scan.repo_path.clone(),
        gates,
        blockers,
        warnings,
        next_commands,
        recommended_commands,
        suite_tools: copy_suite_tools(&scan.suite_tools),
    }
}

// ---------------------------------------------------------------------------
// Laws
// ---------------------------------------------------------------------------

/// The doctor reports `blocked` exactly when a required tool is missing, and
/// each missing required tool stands among the blockers with its name in the
/// message.
pub proof fn law_blocked_iff_required_tool_missing(s: ScanView)
    ensures
        status_of(blockers_of(s), warnings_of(s)) == "blocked"@ <==> exists|i: int|
            0 <= i < s.tools.len() && !s.tools[i].available && is_required_tool(s.tools[i].name),
        forall|i: int|
            0 <= i < s.tools.len() && !s.tools[i].available && is_required_tool(s.tools[i].name)
                ==> #[trigger] blockers_of(s).contains(
                issue_of(
                    "tool_missing"@,
                    "Required tool missing: "@ + s.tools[i].name,
                    "Install "@ + s.tools[i].name + " or make it available on PATH"@,
                ),
            ),
{
    lemma_status_words_distinct();
    let f = |t: ToolInfoView| missing_tool_blocker(t);
    lemma_filter_map_empty(s.tools, f);
    assert forall|i: int|
        0 <= i < s.tools.len() && !s.tools[i].available && is_required_tool(s.tools[i].name)
            implies #[trigger] blockers_of(s).contains(
            issue_of(
                "tool_missing"@,
                "Required tool missing: "@ + s.tools[i].name,
                "Install "@ + s.tools[i].name + " or make it available on PATH"@,
            ),
        ) by {
        lemma_filter_map_contains(s.tools, f, i);
    }
}

/// Status and action level agree: `blocked` goes with `stop`, `caution`
/// with `review`, and `ready` with `validate` or `none`.
pub proof fn law_status_matches_action_level(b: Seq<IssueView>, w: Seq<IssueView>, n: nat)
    ensures
        status_of(b, w) == "blocked"@ <==> action_level_of(b, w, n) == "stop"@,
        status_of(b, w) == "caution"@ <==> action_level_of(b, w, n) == "review"@,
        status_of(b, w) == "ready"@ <==> (action_level_of(b, w, n) == "validate"@
            || action_level_of(b, w, n) == "none"@),
        action_level_of(b, w, n) == "validate"@ <==> (b.len() == 0 && w.len() == 0 && n > 0),
{
    lemma_status_words_distinct();
}

/// The status, action-level and gate words differ from one another.
pub proof fn lemma_status_words_distinct()
    ensures
        "blocked"@ != "caution"@,
        "blocked"@ != "ready"@,
        "caution"@ != "ready"@,
        "stop"@ != "review"@,
        "stop"@ != "validate"@,
        "stop"@ != "none"@,
        "review"@ != "validate"@,
        "review"@ != "none"@,
        "validate"@ != "none"@,
        "ok"@ != "stop"@,
        "ok"@ != "review"@,
{
    reveal_strlit("blocked");
    reveal_strlit("caution");
    reveal_strlit("ready");
    reveal_strlit("stop");
    reveal_strlit("review");
    reveal_strlit("validate");
    reveal_strlit("none");
    reveal_strlit("ok");
    assert("blocked"@[0] != "caution"@[0]);
    assert("blocked"@[0] != "ready"@[0]);
    assert("caution"@[0] != "ready"@[0]);
    assert("stop"@[0] != "review"@[0]);
    assert("stop"@[0] != "validate"@[0]);
    assert("stop"@[0] != "none"@[0]);
    assert("review"@[0] != "validate"@[0]);
    assert("review"@[0] != "none"@[0]);
    assert("validate"@[0] != "none"@[0]);
    assert("ok"@[0] != "stop"@[0]);
    assert("ok"@[0] != "review"@[0]);
}

/// A gate stops exactly when a blocker carries one of its codes, and passes
/// exactly when no blocker or warning does.
pub proof fn law_gate_status(
    name: Seq<char>,
    relevant: Seq<Seq<char>>,
    blockers: Seq<IssueView>,
    warnings: Seq<IssueView>,
    ok_summary: Seq<char>,
)
    ensures
        gate_of(name, relevant, blockers, warnings, ok_summary).status == "stop"@ <==> exists|i: int|
            0 <= i < blockers.len() && relevant.contains(blockers[i].code),
        gate_of(name, relevant, blockers, warnings, ok_summary).status == "ok"@ <==> (forall|i: int|
            0 <= i < blockers.len() ==> !relevant.contains(blockers[i].code)) && (forall|i: int|
            0 <= i < warnings.len() ==> !relevant.contains(warnings[i].code)),
{
    lemma_status_words_distinct();
    let f = |i: IssueView| if relevant.contains(i.code) { Some(i.code) } else { None };
    lemma_filter_map_empty(blockers, f);
    lemma_filter_map_empty(warnings, f);
}

/// Every stale lockfile raises a `lockfile_stale` warning naming it.
pub proof fn law_stale_lockfile_warns(s: ScanView, i: int)
    requires
        0 <= i < s.lockfiles.len(),
        s.lockfiles[i].stale,
    ensures
        warnings_of(s).contains(
            issue_of(
                "lockfile_stale"@,
                "Lockfile may be stale: "@ + s.lockfiles[i].path,
                "Manifest modification time is newer than the lockfile"@,
            ),
        ),
{
    let f = |l: LockfileInfoView| stale_lockfile_warning(l);
    lemma_filter_map_contains(s.lockfiles, f, i);
    let a = when(
        s.projects.len() == 0,
        issue_of(
            "no_projects_detected"@,
            "No supported project manifests detected"@,
            "Supported stacks: Rust, Node, Python, Go, Tauri"@,
        ),
    ) + when(
        s.git is None,
        issue_of(
            "git_unavailable"@,
            "Git state is unavailable"@,
            "This path is not a git repository, or git could not inspect it"@,
        ),
    ) + s.tools.filter_map(|t: ToolInfoView| missing_tool_warning(t));
    let m = s.lockfiles.filter_map(f);
    let x = f(s.lockfiles[i])->0;
    let k = choose|k: int| 0 <= k < m.len() && m[k] == x;
    assert(warnings_of(s)[a.len() + k] == x);
}

/// A dirty or untracked working tree raises a `git_dirty` warning.
pub proof fn law_dirty_tree_warns(s: ScanView)
    requires
        s.git matches Some(g) && (g.dirty_count > 0 || g.untracked_count > 0),
    ensures
        exists|i: int| 0 <= i < warnings_of(s).len() && warnings_of(s)[i].code == "git_dirty"@,
{
    let g = s.git->0;
    let a = when(
        s.projects.len() == 0,
        issue_of(
            "no_projects_detected"@,
            "No supported project manifests detected"@,
            "Supported stacks: Rust, Node, Python, Go, Tauri"@,
        ),
    ) + when(
        s.git is None,
        issue_of(
            "git_unavailable"@,
            "Git state is unavailable"@,
            "This path is not a git repository, or git could not inspect it"@,
        ),
    ) + s.tools.filter_map(|t: ToolInfoView| missing_tool_warning(t)) + s.lockfiles.filter_map(
        |l: LockfileInfoView| stale_lockfile_warning(l),
    );
    assert(git_warnings(s)[0].code == "git_dirty"@);
    assert(warnings_of(s)[a.len() as int] == git_warnings(s)[0]);
}

/// A scan without git state always raises the `git_unavailable` warning,
/// whatever projects it found, so its status is never `ready` and its action
/// level never `validate`.
pub proof fn law_no_git_warns(s: ScanView)
    requires
        s.git is None,
    ensures
        exists|i: int| 0 <= i < warnings_of(s).len() && (#[trigger] warnings_of(s)[i]).code == "git_unavailable"@,
        status_of(blockers_of(s), warnings_of(s)) != "ready"@,
        action_level_of(blockers_of(s), warnings_of(s), s.suggested_commands.len()) != "validate"@,
{
    lemma_status_words_distinct();
    if s.projects.len() == 0 {
        assert(warnings_of(s)[1].code == "git_unavailable"@);
    } else {
        assert(warnings_of(s)[0].code == "git_unavailable"@);
    }
}

} // verus!
