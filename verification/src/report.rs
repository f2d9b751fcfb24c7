//! The human-readable text of each report. Every renderer states its output
//! line by line; the text is those lines, each ended by a newline.
use vstd::prelude::*;

use crate::brief::{
    BriefReport, CommitBriefView, DocsBrief, DocsView, GitBrief, GitBriefView, HealthBrief, ProjectBrief,
    ProjectBriefView, SentinelBrief, SuiteToolsBrief, TodoBrief, TodoFileView,
};
use crate::detect::ProjectView;
use crate::diff::{ChangeView, DiffChange, DiffReport};
use crate::doctor::{DoctorCommand, DoctorGate, DoctorIssue, DoctorReport, DoctorView, GateView, IssueView};
use crate::git::{ChangedFileView, GitState, GitStateView, RecentCommitView};
use crate::scan::{LockfileInfo, LockfileInfoView, ScanResult, ScanView, SuggestedCommand, SuggestedCommandView};
use crate::seq_facts::cap;
use crate::text::{chars_of, decimal, decimal_exec, extend_chars, extend_str, join, lemma_char_deep_view, utf8_len, utf8_width};
use crate::tools::{SuiteToolInfo, SuiteToolInfoView, ToolInfo, ToolInfoView};

verus! {

broadcast use vstd::string::group_string_axioms;

/// The lines, each followed by a newline.
pub open spec fn unlines(ls: Seq<Seq<char>>) -> Seq<char>
    decreases ls.len(),
{
    if ls.len() == 0 {
        Seq::empty()
    } else {
        unlines(ls.drop_last()) + ls.last() + seq!['\n']
    }
}

/// `[l]` when `b`, else no line.
pub open spec fn line_if(b: bool, l: Seq<char>) -> Seq<Seq<char>> {
    if b {
        seq![l]
    } else {
        Seq::empty()
    }
}

/// `ls` when `b`, else no lines.
pub open spec fn lines_if(b: bool, ls: Seq<Seq<char>>) -> Seq<Seq<char>> {
    if b {
        ls
    } else {
        Seq::empty()
    }
}

/// The text of lines.
pub fn text_of_lines(ls: &Vec<Vec<char>>) -> (r: String)
    ensures
        r@ == unlines(ls.deep_view()),
{
    let ghost lv = ls.deep_view();
    let mut out: Vec<char> = Vec::new();
    let mut i: usize = 0;
    while i < ls.len()
        invariant
            lv == ls.deep_view(),
            i <= lv.len(),
            out@ == unlines(lv.take(i as int)),
        decreases lv.len() - i,
    {
        proof {
            lemma_char_deep_view(ls@[i as int]);
        }
        assert(lv.take(i + 1).drop_last() =~= lv.take(i as int));
        extend_chars(&mut out, ls[i].as_slice());
        out.push('\n');
        assert(out@ =~= unlines(lv.take(i + 1)));
        i += 1;
    }
    assert(lv.take(lv.len() as int) =~= lv);
    crate::text::string_of(out.as_slice())
}

fn push_line(out: &mut Vec<Vec<char>>, l: Vec<char>)
    ensures
        final(out).deep_view() == old(out).deep_view().push(l@),
{
    let ghost o0 = out.deep_view();
    let ghost lv = l@;
    proof {
        lemma_char_deep_view(l);
    }
    out.push(l);
    assert(out.deep_view() =~= o0.push(lv));
}

fn push_str_line(out: &mut Vec<Vec<char>>, s: &str)
    ensures
        final(out).deep_view() == old(out).deep_view().push(s@),
{
    push_line(out, chars_of(s));
}

fn append_lines(out: &mut Vec<Vec<char>>, more: Vec<Vec<char>>)
    ensures
        final(out).deep_view() == old(out).deep_view() + more.deep_view(),
{
    let ghost o0 = out.deep_view();
    let mut more = more;
    let ghost mv = more.deep_view();
    out.append(&mut more);
    assert(out.deep_view() =~= o0 + mv);
}

fn cat(a: &str, b: &[char]) -> (r: Vec<char>)
    ensures
        r@ == a@ + b@,
{
    let mut v = chars_of(a);
    extend_chars(&mut v, b);
    v
}

/// The longest start of `s` that takes at most `n` bytes in UTF-8.
pub open spec fn byte_prefix(s: Seq<char>, n: nat) -> Seq<char>
    decreases s.len(),
{
    if s.len() == 0 || utf8_width(s[0]) > n {
        Seq::empty()
    } else {
        seq![s[0]] + byte_prefix(s.drop_first(), (n - utf8_width(s[0])) as nat)
    }
}

/// Byte `n` of `s` in UTF-8, or its end if it is shorter, falls between two
/// characters: slicing `s` there does not panic.
pub open spec fn cuts_cleanly(s: Seq<char>, n: nat) -> bool {
    utf8_len(s) <= n || utf8_len(byte_prefix(s, n)) == n
}

fn byte_prefix_exec(s: &[char], n: usize) -> (r: Vec<char>)
    ensures
        r@ == byte_prefix(s@, n as nat),
{
    let mut out: Vec<char> = Vec::new();
    let mut left: usize = n;
    let mut i: usize = 0;
    assert(s@.skip(0) =~= s@);
    while i < s.len()
        invariant
            i <= s@.len(),
            byte_prefix(s@, n as nat) == out@ + byte_prefix(s@.skip(i as int), left as nat),
        ensures
            byte_prefix(s@, n as nat) == out@,
        decreases s@.len() - i,
    {
        let c = s[i];
        let code = c as u32;
        let w: usize = if code < 0x80 {
            1
        } else if code < 0x800 {
            2
        } else if code < 0x10000 {
            3
        } else {
            4
        };
        assert(s@.skip(i as int)[0] == c);
        assert(w == utf8_width(c));
        if w > left {
            assert(byte_prefix(s@.skip(i as int), left as nat) =~= Seq::<char>::empty());
            assert(out@ + Seq::<char>::empty() =~= out@);
            break;
        }
        assert(s@.skip(i as int).drop_first() =~= s@.skip(i + 1));
        let ghost o0 = out@;
        out.push(c);
        assert(o0 + (seq![c] + byte_prefix(s@.skip(i + 1), (left - w) as nat)) =~= out@ + byte_prefix(
            s@.skip(i + 1),
            (left - w) as nat,
        ));
        left = left - w;
        i += 1;
    }
    proof {
        if i == s@.len() {
            assert(s@.skip(i as int) =~= Seq::<char>::empty());
            assert(out@ + Seq::<char>::empty() =~= out@);
        }
    }
    out
}

// ---------------------------------------------------------------------------
// Scan
// ---------------------------------------------------------------------------

pub open spec fn scan_project_line(p: ProjectView) -> Seq<char> {
    let name = match p.metadata.name {
        Some(n) => n,
        None => Seq::empty(),
    };
    if name.len() == 0 {
        "    "@ + p.kind + " ("@ + p.manifest + ")"@
    } else {
        "    "@ + p.kind + " \""@ + name + "\" ("@ + p.manifest + ")"@
    }
}

pub open spec fn scan_projects_lines(ps: Seq<ProjectView>) -> Seq<Seq<char>> {
    if ps.len() == 0 {
        seq!["  Projects: none detected"@]
    } else {
        seq!["  Projects:"@] + ps.map_values(|p: ProjectView| scan_project_line(p))
    }
}

pub open spec fn commit_line(c: RecentCommitView) -> Seq<char> {
    "      "@ + c.sha + " "@ + c.message
}

pub open spec fn scan_git_lines(git: Option<GitStateView>) -> Seq<Seq<char>> {
    match git {
        None => seq!["  Git: not a git repository"@],
        Some(g) => seq!["  Git: "@ + g.branch + " @ "@ + g.head_sha] + line_if(
            g.dirty_count > 0 || g.untracked_count > 0,
            "    "@ + decimal(g.dirty_count) + " dirty, "@ + decimal(g.untracked_count)
                + " untracked"@,
        ) + match (g.ahead, g.behind) {
            (Some(a), Some(b)) => line_if(
                a > 0 || b > 0,
                "    ahead: "@ + decimal(a) + ", behind: "@ + decimal(b),
            ),
            _ => Seq::empty(),
        } + lines_if(
            g.recent_commits.len() > 0,
            seq!["    Recent:"@] + cap(g.recent_commits, 3).map_values(
                |c: RecentCommitView| commit_line(c),
            ),
        ),
    }
}

pub open spec fn scan_tool_line(t: ToolInfoView) -> Seq<char> {
    if t.available {
        "    ✓ "@ + t.name + " "@ + match t.version {
            Some(v) => v,
            None => Seq::empty(),
        }
    } else {
        "    ✗ "@ + t.name + " (not found)"@
    }
}

pub open spec fn installed_mark(installed: bool) -> Seq<char> {
    if installed {
        "✓"@
    } else {
        "✗"@
    }
}

pub open spec fn scan_suite_line(t: SuiteToolInfoView) -> Seq<char> {
    "    "@ + installed_mark(t.installed) + " "@ + t.name + " — "@ + t.role + " ["@ + t.state + "]"@
        + match t.state_path {
        Some(p) => " ("@ + p + ")"@,
        None => Seq::empty(),
    }
}

pub open spec fn scan_lockfile_line(l: LockfileInfoView) -> Seq<char> {
    "    "@ + l.path + " ("@ + byte_prefix(l.hash, 8) + ")"@ + if l.stale {
        " [STALE]"@
    } else {
        Seq::empty()
    }
}

pub open spec fn scan_command_line(c: SuggestedCommandView) -> Seq<char> {
    "    "@ + c.action + " → `"@ + c.command + "` ["@ + c.confidence + "]"@
}

/// The lines of `probe scan`'s text.
pub open spec fn scan_text_lines(r: ScanView) -> Seq<Seq<char>> {
    seq!["probe scan: "@ + r.repo_path, "  Schema: "@ + r.schema_version, Seq::empty()]
        + scan_projects_lines(r.projects) + seq![Seq::empty()] + scan_git_lines(r.git) + seq![
        Seq::empty(),
    ] + seq!["  Tools:"@] + r.tools.map_values(|t: ToolInfoView| scan_tool_line(t)) + seq![
        Seq::empty(),
    ] + lines_if(
        r.suite_tools.len() > 0,
        seq!["  Agent suite:"@] + r.suite_tools.map_values(|t: SuiteToolInfoView| scan_suite_line(t))
            + seq![Seq::empty()],
    ) + lines_if(
        r.lockfiles.len() > 0,
        seq!["  Lockfiles:"@] + r.lockfiles.map_values(|l: LockfileInfoView| scan_lockfile_line(l))
            + seq![Seq::empty()],
    ) + lines_if(
        r.suggested_commands.len() > 0,
        seq!["  Commands:"@] + r.suggested_commands.map_values(
            |c: SuggestedCommandView| scan_command_line(c),
        ),
    )
}

/// Every lockfile hash can be cut at its eighth byte.
pub open spec fn hashes_cut_cleanly(r: ScanView) -> bool {
    forall|i: int| 0 <= i < r.lockfiles.len() ==> cuts_cleanly(#[trigger] r.lockfiles[i].hash, 8)
}

fn scan_project_line_exec(p: &crate::detect::DetectedProject) -> (r: Vec<char>)
    ensures
        r@ == scan_project_line(p@),
{
    let name = match &p.metadata.name {
        Some(n) => chars_of(n.as_str()),
        None => Vec::new(),
    };
    let mut v = chars_of("    ");
    extend_str(&mut v, p.kind.as_str());
    if name.len() == 0 {
        extend_str(&mut v, " (");
    } else {
        extend_str(&mut v, " \"");
        extend_chars(&mut v, name.as_slice());
        extend_str(&mut v, "\" (");
    }
    extend_str(&mut v, p.manifest.as_str());
    extend_str(&mut v, ")");
    v
}

fn commit_line_exec(sha: &String, message: &String) -> (r: Vec<char>)
    ensures
        r@ == "      "@ + sha@ + " "@ + message@,
{
    let mut v = chars_of("      ");
    extend_str(&mut v, sha.as_str());
    extend_str(&mut v, " ");
    extend_str(&mut v, message.as_str());
    v
}

fn scan_git_lines_exec(git: &Option<GitState>) -> (r: Vec<Vec<char>>)
    ensures
        r.deep_view() == scan_git_lines(git.deep_view()),
{
    let mut out: Vec<Vec<char>> = Vec::new();
    match git {
        None => {
            push_str_line(&mut out, "  Git: not a git repository");
            assert(out.deep_view() =~= scan_git_lines(git.deep_view()));
        },
        Some(g) => {
            let ghost gv = g@;
            let mut l = chars_of("  Git: ");
            extend_str(&mut l, g.branch.as_str());
            extend_str(&mut l, " @ ");
            extend_str(&mut l, g.head_sha.as_str());
            push_line(&mut out, l);
            let ghost p1 = out.deep_view();
            if g.dirty_count > 0 || g.untracked_count > 0 {
                let mut l = chars_of("    ");
                extend_chars(&mut l, decimal_exec(g.dirty_count).as_slice());
                extend_str(&mut l, " dirty, ");
                extend_chars(&mut l, decimal_exec(g.untracked_count).as_slice());
                extend_str(&mut l, " untracked");
                push_line(&mut out, l);
            }
            let ghost p2 = out.deep_view();
            assert(p2 =~= p1 + line_if(
                gv.dirty_count > 0 || gv.untracked_count > 0,
                "    "@ + decimal(gv.dirty_count) + " dirty, "@ + decimal(gv.untracked_count)
                    + " untracked"@,
            ));
            match (g.ahead, g.behind) {
                (Some(a), Some(b)) => {
                    if a > 0 || b > 0 {
                        let mut l = chars_of("    ahead: ");
                        extend_chars(&mut l, decimal_exec(a).as_slice());
                        extend_str(&mut l, ", behind: ");
                        extend_chars(&mut l, decimal_exec(b).as_slice());
                        push_line(&mut out, l);
                    }
                },
                _ => {},
            }
            let ghost p3 = out.deep_view();
            assert(p3 =~= p2 + match (gv.ahead, gv.behind) {
                (Some(a), Some(b)) => line_if(
                    a > 0 || b > 0,
                    "    ahead: "@ + decimal(a) + ", behind: "@ + decimal(b),
                ),
                _ => Seq::empty(),
            });
            let cs = &g.recent_commits;
            let ghost cv = cs.deep_view();
            if cs.len() > 0 {
                push_str_line(&mut out, "    Recent:");
                let n = if cs.len() < 3 {
                    cs.len()
                } else {
                    3
                };
                let ghost p4 = out.deep_view();
                let mut i: usize = 0;
                while i < n
                    invariant
                        cv == cs.deep_view(),
                        n <= cv.len(),
                        n == cap(cv, 3).len(),
                        i <= n,
                        out.deep_view() == p4 + cv.take(i as int).map_values(
                            |c: RecentCommitView| commit_line(c),
                        ),
                    decreases n - i,
                {
                    let ghost o0 = out.deep_view();
                    push_line(&mut out, commit_line_exec(&cs[i].sha, &cs[i].message));
                    assert(cv.take(i + 1).map_values(|c: RecentCommitView| commit_line(c)) =~= cv.take(
                        i as int,
                    ).map_values(|c: RecentCommitView| commit_line(c)).push(commit_line(cv[i as int])));
                    i += 1;
                }
                assert(cv.take(n as int) =~= cap(cv, 3));
            }
            assert(out.deep_view() =~= scan_git_lines(git.deep_view()));
        },
    }
    out
}

fn scan_tool_line_exec(t: &ToolInfo) -> (r: Vec<char>)
    ensures
        r@ == scan_tool_line(t@),
{
    if t.available {
        let mut v = chars_of("    ✓ ");
        extend_str(&mut v, t.name.as_str());
        extend_str(&mut v, " ");
        match &t.version {
            Some(x) => extend_str(&mut v, x.as_str()),
            None => {},
        }
        assert(v@ =~= scan_tool_line(t@));
        v
    } else {
        let mut v = chars_of("    ✗ ");
        extend_str(&mut v, t.name.as_str());
        extend_str(&mut v, " (not found)");
        v
    }
}

fn installed_mark_exec(installed: bool) -> (r: &'static str)
    ensures
        r@ == installed_mark(installed),
{
    if installed {
        "✓"
    } else {
        "✗"
    }
}

fn scan_suite_line_exec(t: &SuiteToolInfo) -> (r: Vec<char>)
    ensures
        r@ == scan_suite_line(t@),
{
    let mut v = chars_of("    ");
    extend_str(&mut v, installed_mark_exec(t.installed));
    extend_str(&mut v, " ");
    extend_str(&mut v, t.name.as_str());
    extend_str(&mut v, " — ");
    extend_str(&mut v, t.role.as_str());
    extend_str(&mut v, " [");
    extend_str(&mut v, t.state.as_str());
    extend_str(&mut v, "]");
    match &t.state_path {
        Some(p) => {
            extend_str(&mut v, " (");
            extend_str(&mut v, p.as_str());
            extend_str(&mut v, ")");
        },
        None => {},
    }
    assert(v@ =~= scan_suite_line(t@));
    v
}

fn scan_lockfile_line_exec(l: &LockfileInfo) -> (r: Vec<char>)
    ensures
        r@ == scan_lockfile_line(l@),
{
    let mut v = chars_of("    ");
    extend_str(&mut v, l.path.as_str());
    extend_str(&mut v, " (");
    extend_chars(&mut v, byte_prefix_exec(chars_of(l.hash.as_str()).as_slice(), 8).as_slice());
    extend_str(&mut v, ")");
    if l.stale {
        extend_str(&mut v, " [STALE]");
    }
    assert(v@ =~= scan_lockfile_line(l@));
    v
}

fn scan_command_line_exec(c: &SuggestedCommand) -> (r: Vec<char>)
    ensures
        r@ == scan_command_line(c@),
{
    let mut v = chars_of("    ");
    extend_str(&mut v, c.action.as_str());
    extend_str(&mut v, " → `");
    extend_str(&mut v, c.command.as_str());
    extend_str(&mut v, "` [");
    extend_str(&mut v, c.confidence.as_str());
    extend_str(&mut v, "]");
    v
}

fn scan_projects_lines_exec(ps: &Vec<crate::detect::DetectedProject>) -> (r: Vec<Vec<char>>)
    ensures
        r.deep_view() == scan_projects_lines(ps.deep_view()),
{
    let ghost pv = ps.deep_view();
    let mut out: Vec<Vec<char>> = Vec::new();
    if ps.len() == 0 {
        push_str_line(&mut out, "  Projects: none detected");
        assert(out.deep_view() =~= scan_projects_lines(pv));
        return out;
    }
    push_str_line(&mut out, "  Projects:");
    let ghost base = out.deep_view();
    let mut i: usize = 0;
    while i < ps.len()
        invariant
            pv == ps.deep_view(),
            i <= pv.len(),
            out.deep_view() == base + pv.take(i as int).map_values(|p: ProjectView| scan_project_line(p)),
        decreases pv.len() - i,
    {
        push_line(&mut out, scan_project_line_exec(&ps[i]));
        assert(pv.take(i + 1).map_values(|p: ProjectView| scan_project_line(p)) =~= pv.take(
            i as int,
        ).map_values(|p: ProjectView| scan_project_line(p)).push(scan_project_line(pv[i as int])));
        i += 1;
    }
    assert(pv.take(pv.len() as int) =~= pv);
    assert(out.deep_view() =~= scan_projects_lines(pv));
    out
}

fn scan_tools_lines_exec(ts: &Vec<ToolInfo>) -> (r: Vec<Vec<char>>)
    ensures
        r.deep_view() == ts.deep_view().map_values(|t: ToolInfoView| scan_tool_line(t)),
{
    let ghost tv = ts.deep_view();
    let mut out: Vec<Vec<char>> = Vec::new();
    let mut i: usize = 0;
    while i < ts.len()
        invariant
            tv == ts.deep_view(),
            i <= tv.len(),
            out.deep_view() == tv.take(i as int).map_values(|t: ToolInfoView| scan_tool_line(t)),
        decreases tv.len() - i,
    {
        push_line(&mut out, scan_tool_line_exec(&ts[i]));
        assert(tv.take(i + 1).map_values(|t: ToolInfoView| scan_tool_line(t)) =~= tv.take(
            i as int,
        ).map_values(|t: ToolInfoView| scan_tool_line(t)).push(scan_tool_line(tv[i as int])));
        i += 1;
    }
    assert(tv.take(tv.len() as int) =~= tv);
    out
}

fn scan_suite_lines_exec(sts: &Vec<SuiteToolInfo>) -> (r: Vec<Vec<char>>)
    ensures
        r.deep_view() == sts.deep_view().map_values(|t: SuiteToolInfoView| scan_suite_line(t)),
{
    let ghost sv = sts.deep_view();
    let mut out: Vec<Vec<char>> = Vec::new();
    let mut i: usize = 0;
    while i < sts.len()
        invariant
            sv == sts.deep_view(),
            i <= sv.len(),
            out.deep_view() == sv.take(i as int).map_values(|t: SuiteToolInfoView| scan_suite_line(t)),
        decreases sv.len() - i,
    {
        push_line(&mut out, scan_suite_line_exec(&sts[i]));
        assert(sv.take(i + 1).map_values(|t: SuiteToolInfoView| scan_suite_line(t)) =~= sv.take(
            i as int,
        ).map_values(|t: SuiteToolInfoView| scan_suite_line(t)).push(scan_suite_line(sv[i as int])));
        i += 1;
    }
    assert(sv.take(sv.len() as int) =~= sv);
    out
}

fn scan_lockfile_lines_exec(ls: &Vec<LockfileInfo>) -> (r: Vec<Vec<char>>)
    ensures
        r.deep_view() == ls.deep_view().map_values(|l: LockfileInfoView| scan_lockfile_line(l)),
{
    let ghost lv = ls.deep_view();
    let mut out: Vec<Vec<char>> = Vec::new();
    let mut i: usize = 0;
    while i < ls.len()
        invariant
            lv == ls.deep_view(),
            i <= lv.len(),
            out.deep_view() == lv.take(i as int).map_values(|l: LockfileInfoView| scan_lockfile_line(l)),
        decreases lv.len() - i,
    {
        push_line(&mut out, scan_lockfile_line_exec(&ls[i]));
        assert(lv.take(i + 1).map_values(|l: LockfileInfoView| scan_lockfile_line(l)) =~= lv.take(
            i as int,
        ).map_values(|l: LockfileInfoView| scan_lockfile_line(l)).push(scan_lockfile_line(lv[i as int])));
        i += 1;
    }
    assert(lv.take(lv.len() as int) =~= lv);
    out
}

fn scan_command_lines_exec(cs: &Vec<SuggestedCommand>) -> (r: Vec<Vec<char>>)
    ensures
        r.deep_view() == cs.deep_view().map_values(|c: SuggestedCommandView| scan_command_line(c)),
{
    let ghost cv = cs.deep_view();
    let mut out: Vec<Vec<char>> = Vec::new();
    let mut i: usize = 0;
    while i < cs.len()
        invariant
            cv == cs.deep_view(),
            i <= cv.len(),
            out.deep_view() == cv.take(i as int).map_values(|c: SuggestedCommandView| scan_command_line(c)),
        decreases cv.len() - i,
    {
        push_line(&mut out, scan_command_line_exec(&cs[i]));
        assert(cv.take(i + 1).map_values(|c: SuggestedCommandView| scan_command_line(c)) =~= cv.take(
            i as int,
        ).map_values(|c: SuggestedCommandView| scan_command_line(c)).push(scan_command_line(cv[i as int])));
        i += 1;
    }
    assert(cv.take(cv.len() as int) =~= cv);
    out
}

/// A titled block: the title, the lines, and a blank line when `blank`;
/// nothing when there are no lines.
fn titled(title: &str, body: Vec<Vec<char>>, blank: bool) -> (r: Vec<Vec<char>>)
    ensures
        r.deep_view() == lines_if(
            body.deep_view().len() > 0,
            seq![title@] + body.deep_view() + if blank {
                seq![Seq::<char>::empty()]
            } else {
                Seq::empty()
            },
        ),
{
    let mut out: Vec<Vec<char>> = Vec::new();
    let ghost bv = body.deep_view();
    if body.len() == 0 {
        assert(out.deep_view() =~= Seq::<Seq<char>>::empty());
        return out;
    }
    push_str_line(&mut out, title);
    append_lines(&mut out, body);
    if blank {
        push_line(&mut out, Vec::new());
    }
    assert(out.deep_view() =~= seq![title@] + bv + if blank {
        seq![Seq::<char>::empty()]
    } else {
        Seq::empty()
    });
    out
}

/// The text `probe scan` prints.
pub fn render_scan_text(r: &ScanResult) -> (t: String)
    requires
        hashes_cut_cleanly(r@),
    ensures
        t@ == unlines(scan_text_lines(r@)),
{
    let ghost rv = r@;
    let mut out: Vec<Vec<char>> = Vec::new();
    push_line(&mut out, cat("probe scan: ", chars_of(r.repo_path.as_str()).as_slice()));
    push_line(&mut out, cat("  Schema: ", chars_of(r.schema_version.as_str()).as_slice()));
    push_line(&mut out, Vec::new());
    append_lines(&mut out, scan_projects_lines_exec(&r.projects));
    push_line(&mut out, Vec::new());
    append_lines(&mut out, scan_git_lines_exec(&r.git));
    push_line(&mut out, Vec::new());
    push_str_line(&mut out, "  Tools:");
    append_lines(&mut out, scan_tools_lines_exec(&r.tools));
    push_line(&mut out, Vec::new());
    append_lines(&mut out, titled("  Agent suite:", scan_suite_lines_exec(&r.suite_tools), true));
    append_lines(&mut out, titled("  Lockfiles:", scan_lockfile_lines_exec(&r.lockfiles), true));
    append_lines(&mut out, titled("  Commands:", scan_command_lines_exec(&r.suggested_commands), false));
    assert(out.deep_view() =~= scan_text_lines(rv));
    text_of_lines(&out)
}

// ---------------------------------------------------------------------------
// Diff
// ---------------------------------------------------------------------------

pub open spec fn diff_change_line(c: ChangeView) -> Seq<char> {
    "  ["@ + c.severity + "] "@ + c.kind + " "@ + c.field + ": "@ + c.message
}

/// The lines of `probe diff`'s text.
pub open spec fn diff_text_lines(r: DiffReport) -> Seq<Seq<char>> {
    seq![
        "probe diff: "@ + r.repo_path@,
        "  Baseline: "@ + r.baseline_path@,
        "  Baseline timestamp: "@ + r.baseline_timestamp@,
        "  Current timestamp: "@ + r.current_timestamp@,
        Seq::empty(),
    ] + if r.changes@.len() == 0 {
        seq!["  No drift detected."@]
    } else {
        seq![
            "  Summary: "@ + decimal(r.summary.changes as nat) + " changes, "@ + decimal(
                r.summary.blockers as nat,
            ) + " blockers, "@ + decimal(r.summary.warnings as nat) + " warnings, "@ + decimal(
                r.summary.info as nat,
            ) + " info"@,
            Seq::empty(),
        ] + r.changes.deep_view().map_values(|c: ChangeView| diff_change_line(c))
    }
}

fn diff_change_line_exec(c: &DiffChange) -> (r: Vec<char>)
    ensures
        r@ == diff_change_line(c@),
{
    let mut v = chars_of("  [");
    extend_str(&mut v, c.severity.as_str());
    extend_str(&mut v, "] ");
    extend_str(&mut v, c.kind.as_str());
    extend_str(&mut v, " ");
    extend_str(&mut v, c.field.as_str());
    extend_str(&mut v, ": ");
    extend_str(&mut v, c.message.as_str());
    v
}

/// The text `probe diff` prints.
pub fn render_diff_text(r: &DiffReport) -> (t: String)
    ensures
        t@ == unlines(diff_text_lines(*r)),
{
    let mut out: Vec<Vec<char>> = Vec::new();
    push_line(&mut out, cat("probe diff: ", chars_of(r.repo_path.as_str()).as_slice()));
    push_line(&mut out, cat("  Baseline: ", chars_of(r.baseline_path.as_str()).as_slice()));
    push_line(
        &mut out,
        cat("  Baseline timestamp: ", chars_of(r.baseline_timestamp.as_str()).as_slice()),
    );
    push_line(&mut out, cat("  Current timestamp: ", chars_of(r.current_timestamp.as_str()).as_slice()));
    push_line(&mut out, Vec::new());
    let ghost head = out.deep_view();
    if r.changes.len() == 0 {
        push_str_line(&mut out, "  No drift detected.");
        assert(out.deep_view() =~= diff_text_lines(*r));
        return text_of_lines(&out);
    }
    let mut l = chars_of("  Summary: ");
    extend_chars(&mut l, decimal_exec(r.summary.changes).as_slice());
    extend_str(&mut l, " changes, ");
    extend_chars(&mut l, decimal_exec(r.summary.blockers).as_slice());
    extend_str(&mut l, " blockers, ");
    extend_chars(&mut l, decimal_exec(r.summary.warnings).as_slice());
    extend_str(&mut l, " warnings, ");
    extend_chars(&mut l, decimal_exec(r.summary.info).as_slice());
    extend_str(&mut l, " info");
    push_line(&mut out, l);
    push_line(&mut out, Vec::new());
    let cs = &r.changes;
    let ghost cv = cs.deep_view();
    let ghost base = out.deep_view();
    let mut i: usize = 0;
    while i < cs.len()
        invariant
            cv == cs.deep_view(),
            i <= cv.len(),
            out.deep_view() == base + cv.take(i as int).map_values(|c: ChangeView| diff_change_line(c)),
        decreases cv.len() - i,
    {
        push_line(&mut out, diff_change_line_exec(&cs[i]));
        assert(cv.take(i + 1).map_values(|c: ChangeView| diff_change_line(c)) =~= cv.take(
            i as int,
        ).map_values(|c: ChangeView| diff_change_line(c)).push(diff_change_line(cv[i as int])));
        i += 1;
    }
    assert(cv.take(cv.len() as int) =~= cv);
    assert(out.deep_view() =~= diff_text_lines(*r));
    text_of_lines(&out)
}

// ---------------------------------------------------------------------------
// Doctor
// ---------------------------------------------------------------------------

pub open spec fn gate_line(g: GateView) -> Seq<char> {
    "    "@ + g.name + ": "@ + g.status + " — "@ + g.summary
}

pub open spec fn issue_line(i: IssueView) -> Seq<char> {
    "    ["@ + i.code + "] "@ + i.message + " ("@ + i.detail + ")"@
}

/// A titled list of issues, `none` when there are none, and a blank line.
pub open spec fn issues_lines(label: Seq<char>, issues: Seq<IssueView>) -> Seq<Seq<char>> {
    seq!["  "@ + label + ":"@] + if issues.len() == 0 {
        seq!["    none"@]
    } else {
        issues.map_values(|i: IssueView| issue_line(i))
    } + seq![Seq::empty()]
}

pub open spec fn recommended_line(c: SuggestedCommandView) -> Seq<char> {
    "    "@ + c.action + " -> `"@ + c.command + "` ["@ + c.confidence + "] — "@ + c.reason
}

pub open spec fn doctor_suite_line(t: SuiteToolInfoView) -> Seq<char> {
    "    "@ + installed_mark(t.installed) + " "@ + t.name + " ["@ + t.state + "]"@
}

/// The lines of `probe doctor`'s text.
pub open spec fn doctor_text_lines(r: DoctorView) -> Seq<Seq<char>> {
    seq![
        "probe doctor: "@ + r.status + " ("@ + r.repo_path + ")"@,
        "  Action: "@ + r.action_level,
        Seq::empty(),
    ] + lines_if(
        r.gates.len() > 0,
        seq!["  Gates:"@] + r.gates.map_values(|g: GateView| gate_line(g)) + seq![Seq::empty()],
    ) + issues_lines("Blockers"@, r.blockers) + issues_lines("Warnings"@, r.warnings) + lines_if(
        r.recommended_commands.len() > 0,
        seq!["  Recommended commands:"@] + r.recommended_commands.map_values(
            |c: SuggestedCommandView| recommended_line(c),
        ),
    ) + lines_if(
        r.suite_tools.len() > 0,
        seq![Seq::empty(), "  Suite tools:"@] + r.suite_tools.map_values(
            |t: SuiteToolInfoView| doctor_suite_line(t),
        ),
    )
}

fn gate_lines_exec(gs: &Vec<DoctorGate>) -> (r: Vec<Vec<char>>)
    ensures
        r.deep_view() == gs.deep_view().map_values(|g: GateView| gate_line(g)),
{
    let ghost gv = gs.deep_view();
    let mut out: Vec<Vec<char>> = Vec::new();
    let mut i: usize = 0;
    while i < gs.len()
        invariant
            gv == gs.deep_view(),
            i <= gv.len(),
            out.deep_view() == gv.take(i as int).map_values(|g: GateView| gate_line(g)),
        decreases gv.len() - i,
    {
        let g = &gs[i];
        let mut v = chars_of("    ");
        extend_str(&mut v, g.name.as_str());
        extend_str(&mut v, ": ");
        extend_str(&mut v, g.status.as_str());
        extend_str(&mut v, " — ");
        extend_str(&mut v, g.summary.as_str());
        push_line(&mut out, v);
        assert(gv.take(i + 1).map_values(|g: GateView| gate_line(g)) =~= gv.take(i as int).map_values(
            |g: GateView| gate_line(g),
        ).push(gate_line(gv[i as int])));
        i += 1;
    }
    assert(gv.take(gv.len() as int) =~= gv);
    out
}

fn issues_lines_exec(label: &str, issues: &Vec<DoctorIssue>) -> (r: Vec<Vec<char>>)
    ensures
        r.deep_view() == issues_lines(label@, issues.deep_view()),
{
    let ghost iv = issues.deep_view();
    let mut out: Vec<Vec<char>> = Vec::new();
    let mut h = chars_of("  ");
    extend_str(&mut h, label);
    extend_str(&mut h, ":");
    push_line(&mut out, h);
    let ghost base = out.deep_view();
    if issues.len() == 0 {
        push_str_line(&mut out, "    none");
    } else {
        let mut i: usize = 0;
        while i < issues.len()
            invariant
                iv == issues.deep_view(),
                i <= iv.len(),
                out.deep_view() == base + iv.take(i as int).map_values(|x: IssueView| issue_line(x)),
            decreases iv.len() - i,
        {
            let x = &issues[i];
            let mut v = chars_of("    [");
            extend_str(&mut v, x.code.as_str());
            extend_str(&mut v, "] ");
            extend_str(&mut v, x.message.as_str());
            extend_str(&mut v, " (");
            extend_str(&mut v, x.detail.as_str());
            extend_str(&mut v, ")");
            push_line(&mut out, v);
            assert(iv.take(i + 1).map_values(|x: IssueView| issue_line(x)) =~= iv.take(i as int).map_values(
                |x: IssueView| issue_line(x),
            ).push(issue_line(iv[i as int])));
            i += 1;
        }
        assert(iv.take(iv.len() as int) =~= iv);
    }
    push_line(&mut out, Vec::new());
    assert(out.deep_view() =~= issues_lines(label@, iv));
    out
}

fn recommended_lines_exec(cs: &Vec<DoctorCommand>) -> (r: Vec<Vec<char>>)
    ensures
        r.deep_view() == cs.deep_view().map_values(|c: SuggestedCommandView| recommended_line(c)),
{
    let ghost cv = cs.deep_view();
    let mut out: Vec<Vec<char>> = Vec::new();
    let mut i: usize = 0;
    while i < cs.len()
        invariant
            cv == cs.deep_view(),
            i <= cv.len(),
            out.deep_view() == cv.take(i as int).map_values(|c: SuggestedCommandView| recommended_line(c)),
        decreases cv.len() - i,
    {
        let c = &cs[i];
        let mut v = chars_of("    ");
        extend_str(&mut v, c.action.as_str());
        extend_str(&mut v, " -> `");
        extend_str(&mut v, c.command.as_str());
        extend_str(&mut v, "` [");
        extend_str(&mut v, c.confidence.as_str());
        extend_str(&mut v, "] — ");
        extend_str(&mut v, c.reason.as_str());
        push_line(&mut out, v);
        assert(cv.take(i + 1).map_values(|c: SuggestedCommandView| recommended_line(c)) =~= cv.take(
            i as int,
        ).map_values(|c: SuggestedCommandView| recommended_line(c)).push(recommended_line(cv[i as int])));
        i += 1;
    }
    assert(cv.take(cv.len() as int) =~= cv);
    out
}

fn doctor_suite_lines_exec(ts: &Vec<SuiteToolInfo>) -> (r: Vec<Vec<char>>)
    ensures
        r.deep_view() == ts.deep_view().map_values(|t: SuiteToolInfoView| doctor_suite_line(t)),
{
    let ghost tv = ts.deep_view();
    let mut out: Vec<Vec<char>> = Vec::new();
    let mut i: usize = 0;
    while i < ts.len()
        invariant
            tv == ts.deep_view(),
            i <= tv.len(),
            out.deep_view() == tv.take(i as int).map_values(|t: SuiteToolInfoView| doctor_suite_line(t)),
        decreases tv.len() - i,
    {
        let t = &ts[i];
        let mut v = chars_of("    ");
        extend_str(&mut v, installed_mark_exec(t.installed));
        extend_str(&mut v, " ");
        extend_str(&mut v, t.name.as_str());
        extend_str(&mut v, " [");
        extend_str(&mut v, t.state.as_str());
        extend_str(&mut v, "]");
        push_line(&mut out, v);
        assert(tv.take(i + 1).map_values(|t: SuiteToolInfoView| doctor_suite_line(t)) =~= tv.take(
            i as int,
        ).map_values(|t: SuiteToolInfoView| doctor_suite_line(t)).push(doctor_suite_line(tv[i as int])));
        i += 1;
    }
    assert(tv.take(tv.len() as int) =~= tv);
    out
}

/// The text `probe doctor` prints.
pub fn render_doctor_text(r: &DoctorReport) -> (t: String)
    ensures
        t@ == unlines(doctor_text_lines(r@)),
{
    let mut out: Vec<Vec<char>> = Vec::new();
    let mut h = chars_of("probe doctor: ");
    extend_str(&mut h, r.status.as_str());
    extend_str(&mut h, " (");
    extend_str(&mut h, r.repo_path.as_str());
    extend_str(&mut h, ")");
    push_line(&mut out, h);
    push_line(&mut out, cat("  Action: ", chars_of(r.action_level.as_str()).as_slice()));
    push_line(&mut out, Vec::new());
    append_lines(&mut out, titled("  Gates:", gate_lines_exec(&r.gates), true));
    append_lines(&mut out, issues_lines_exec("Blockers", &r.blockers));
    append_lines(&mut out, issues_lines_exec("Warnings", &r.warnings));
    append_lines(
        &mut out,
        titled("  Recommended commands:", recommended_lines_exec(&r.recommended_commands), false),
    );
    let ghost before_suite = out.deep_view();
    if r.suite_tools.len() > 0 {
        push_line(&mut out, Vec::new());
        push_str_line(&mut out, "  Suite tools:");
        append_lines(&mut out, doctor_suite_lines_exec(&r.suite_tools));
    }
    assert(out.deep_view() =~= doctor_text_lines(r@));
    text_of_lines(&out)
}

// ---------------------------------------------------------------------------
// Brief
// ---------------------------------------------------------------------------

/// `prefix` and the value, when there is one.
pub open spec fn opt_line(prefix: Seq<char>, o: Option<Seq<char>>) -> Seq<Seq<char>> {
    match o {
        Some(v) => seq![prefix + v],
        None => Seq::empty(),
    }
}

/// What the repository is, from PROJECT.md, else from the README's summary.
pub open spec fn brief_what_lines(d: DocsView) -> Seq<Seq<char>> {
    let described = match d.project_md {
        Some(p) => p.what is Some,
        None => false,
    };
    let from_project = match d.project_md {
        Some(p) => opt_line("  What: "@, p.what) + opt_line("  Status: "@, p.status) + opt_line(
            "  Tech: "@,
            p.tech,
        ) + opt_line("  Last updated: "@, p.last_updated),
        None => Seq::empty(),
    };
    let from_readme = match d.readme {
        Some(r) => opt_line("  What: "@, r.summary),
        None => Seq::empty(),
    };
    if described {
        from_project
    } else {
        from_project + from_readme
    }
}

/// A document and its section headings.
pub open spec fn doc_entry(path: Seq<char>, headings: Seq<Seq<char>>) -> Seq<char> {
    if headings.len() == 0 {
        path
    } else {
        path + " ["@ + join(headings, ", "@) + "]"@
    }
}

pub open spec fn brief_docs(d: DocsView) -> Seq<Seq<char>> {
    let p = match d.project_md {
        Some(p) => seq![doc_entry(p.path, p.headings)],
        None => Seq::empty(),
    };
    let r = match d.readme {
        Some(r) => seq![doc_entry(r.path, r.headings)],
        None => Seq::empty(),
    };
    p + r + d.other
}

pub open spec fn brief_docs_line(d: DocsView) -> Seq<char> {
    if brief_docs(d).len() == 0 {
        "  Docs: none found (no PROJECT.md or README.md)"@
    } else {
        "  Docs: "@ + join(brief_docs(d), " · "@)
    }
}

pub open spec fn stack_entry(p: ProjectBriefView) -> Seq<char> {
    p.kind + match p.name {
        Some(n) => " \""@ + n + "\""@,
        None => Seq::empty(),
    } + if p.root == "."@ {
        " ("@ + p.manifest + ")"@
    } else {
        " @ "@ + p.root
    }
}

pub open spec fn brief_stack_line(ps: Seq<ProjectBriefView>) -> Seq<char> {
    if ps.len() == 0 {
        "  Stack: none detected (supported: Rust, Node, Python, Go, Tauri)"@
    } else {
        "  Stack: "@ + join(ps.map_values(|p: ProjectBriefView| stack_entry(p)), " · "@)
    }
}

pub open spec fn git_state_text(g: GitBriefView) -> Seq<char> {
    let counts = if g.dirty_count == 0 && g.untracked_count == 0 {
        "clean"@
    } else {
        decimal(g.dirty_count) + " dirty, "@ + decimal(g.untracked_count) + " untracked"@
    };
    let upstream = match (g.ahead, g.behind) {
        (Some(a), Some(b)) => if a > 0 || b > 0 {
            ", ahead "@ + decimal(a) + "/behind "@ + decimal(b)
        } else {
            Seq::empty()
        },
        _ => Seq::empty(),
    };
    let commits = match g.commit_count {
        Some(c) => ", "@ + decimal(c) + " commits"@,
        None => Seq::empty(),
    };
    counts + upstream + commits
}

pub open spec fn changed_entry(c: ChangedFileView) -> Seq<char> {
    c.status + " "@ + c.path
}

pub open spec fn brief_git_lines(git: Option<GitBriefView>) -> Seq<Seq<char>> {
    match git {
        None => seq!["  Git: not a git repository"@],
        Some(g) => seq!["  Git: "@ + g.branch + " @ "@ + g.head_sha + " — "@ + git_state_text(g)]
            + line_if(
            g.changed_files.len() > 0,
            "    Changed: "@ + join(
                g.changed_files.map_values(|c: ChangedFileView| changed_entry(c)) + if g.changed_files_truncated {
                    seq!["…"@]
                } else {
                    Seq::empty()
                },
                ", "@,
            ),
        ) + lines_if(
            g.recent_commits.len() > 0,
            seq!["    Recent:"@] + g.recent_commits.map_values(
                |c: CommitBriefView| "      "@ + c.sha + " "@ + c.message,
            ),
        ),
    }
}

/// Blockers first, marked, then warnings: `code: detail` each.
pub open spec fn health_issues(blockers: Seq<IssueView>, warnings: Seq<IssueView>) -> Seq<Seq<char>> {
    blockers.map_values(|i: IssueView| "BLOCKER "@ + i.code + ": "@ + i.detail) + warnings.map_values(
        |i: IssueView| i.code + ": "@ + i.detail,
    )
}

/// The health line and at most six issues, with a count of the rest.
pub open spec fn brief_health_lines(h: HealthBrief) -> Seq<Seq<char>> {
    let issues = health_issues(h.blockers.deep_view(), h.warnings.deep_view());
    seq!["  Health: "@ + h.status@ + " ("@ + h.action_level@ + ")"@] + cap(issues, 6).map_values(
        |i: Seq<char>| "    "@ + i,
    ) + line_if(
        issues.len() > 6,
        "    … "@ + decimal((issues.len() - 6) as nat) + " more (see probe doctor)"@,
    )
}

pub open spec fn bounded_note(truncated: bool) -> Seq<char> {
    if truncated {
        " (bounded)"@
    } else {
        Seq::empty()
    }
}

pub open spec fn todo_entry_text(f: TodoFileView) -> Seq<char> {
    f.path + " ×"@ + decimal(f.count)
}

pub open spec fn brief_todo_line(t: TodoBrief) -> Seq<char> {
    if t.total == 0 {
        "  TODO markers: none in "@ + decimal(t.files_scanned as nat) + " files scanned"@ + bounded_note(
            t.truncated,
        )
    } else {
        "  TODO markers: "@ + decimal(t.total as nat) + " across "@ + decimal(t.files_scanned as nat)
            + " files scanned"@ + bounded_note(t.truncated) + " — "@ + join(
            t.top_files.deep_view().map_values(|f: TodoFileView| todo_entry_text(f)),
            ", "@,
        )
    }
}

pub open spec fn suite_parts(s: SuiteToolsBrief) -> Seq<Seq<char>> {
    line_if(s.linked@.len() > 0, "linked "@ + join(s.linked.deep_view(), ", "@)) + line_if(
        s.available@.len() > 0,
        "available "@ + join(s.available.deep_view(), ", "@),
    ) + line_if(s.missing@.len() > 0, "missing "@ + join(s.missing.deep_view(), ", "@))
}

pub open spec fn sentinel_lines(s: Option<SentinelBrief>) -> Seq<Seq<char>> {
    match s {
        Some(x) => seq![
            "  Sentinel: "@ + decimal(x.tracked_files as nat) + " tracked, "@ + decimal(x.high_risk as nat)
                + " high-risk, "@ + decimal(x.medium_risk as nat) + " medium-risk"@,
        ],
        None => Seq::empty(),
    }
}

/// `s` padded with spaces to at least `n` characters (`{:<n}`).
pub open spec fn pad_right(s: Seq<char>, n: nat) -> Seq<char> {
    if s.len() >= n {
        s
    } else {
        s + Seq::new((n - s.len()) as nat, |i: int| ' ')
    }
}

pub open spec fn run_line(c: SuggestedCommandView) -> Seq<char> {
    "    "@ + pad_right(c.action, 8) + " "@ + c.command + "  ["@ + c.confidence + "]"@
}

pub open spec fn brief_run_lines(cs: Seq<SuggestedCommandView>) -> Seq<Seq<char>> {
    if cs.len() == 0 {
        seq!["  Run: no commands inferred; read the docs above for build/run steps"@]
    } else {
        seq!["  Run:"@] + cs.map_values(|c: SuggestedCommandView| run_line(c))
    }
}

pub open spec fn git_brief_view(g: Option<GitBrief>) -> Option<GitBriefView> {
    match g {
        Some(x) => Some(x@),
        None => None,
    }
}

/// The title, what the repository is, its documents, stack and markers.
pub open spec fn brief_head_lines(r: BriefReport) -> Seq<Seq<char>> {
    seq!["probe brief: "@ + r.name@ + " ("@ + r.repo_path@ + ")"@, Seq::empty()] + brief_what_lines(
        r.docs@,
    ) + seq![brief_docs_line(r.docs@), Seq::empty(), brief_stack_line(r.projects.deep_view())]
        + line_if(r.markers@.len() > 0, "  Markers: "@ + join(r.markers.deep_view(), " · "@))
}

/// Git, health, missing tools, stale lockfiles and TODO markers.
pub open spec fn brief_middle_lines(r: BriefReport) -> Seq<Seq<char>> {
    brief_git_lines(git_brief_view(r.git)) + seq![Seq::empty()] + brief_health_lines(r.health)
        + line_if(
        r.tools.missing@.len() > 0,
        "  Missing tools: "@ + join(r.tools.missing.deep_view(), ", "@),
    ) + line_if(
        r.lockfiles.stale@.len() > 0,
        "  Stale lockfiles: "@ + join(r.lockfiles.stale.deep_view(), ", "@),
    ) + seq![brief_todo_line(r.todos)]
}

/// Suite tools, the sentinel summary and what to run.
pub open spec fn brief_tail_lines(r: BriefReport) -> Seq<Seq<char>> {
    line_if(
        suite_parts(r.suite_tools).len() > 0,
        "  Suite: "@ + join(suite_parts(r.suite_tools), " · "@),
    ) + sentinel_lines(r.sentinel) + seq![Seq::empty()] + brief_run_lines(r.commands.deep_view())
        + seq![Seq::empty(), "  Detail: probe scan · probe doctor"@]
}

/// The lines of `probe brief`'s text.
pub open spec fn brief_text_lines(r: BriefReport) -> Seq<Seq<char>> {
    brief_head_lines(r) + brief_middle_lines(r) + brief_tail_lines(r)
}

fn char_strings(v: &Vec<String>) -> (r: Vec<Vec<char>>)
    ensures
        r.deep_view() == v.deep_view(),
{
    let ghost vv = v.deep_view();
    let mut out: Vec<Vec<char>> = Vec::new();
    let mut i: usize = 0;
    while i < v.len()
        invariant
            vv == v.deep_view(),
            i <= vv.len(),
            out.deep_view() == vv.take(i as int),
        decreases vv.len() - i,
    {
        push_line(&mut out, chars_of(v[i].as_str()));
        assert(vv.take(i + 1) =~= vv.take(i as int).push(vv[i as int]));
        i += 1;
    }
    assert(vv.take(vv.len() as int) =~= vv);
    out
}

fn join_strings(v: &Vec<String>, sep: &str) -> (r: Vec<char>)
    ensures
        r@ == join(v.deep_view(), sep@),
{
    crate::text::join_exec(&char_strings(v), chars_of(sep).as_slice())
}

fn opt_line_exec(out: &mut Vec<Vec<char>>, prefix: &str, o: &Option<String>)
    ensures
        final(out).deep_view() == old(out).deep_view() + opt_line(prefix@, o.deep_view()),
{
    let ghost o0 = out.deep_view();
    match o {
        Some(v) => {
            push_line(out, cat(prefix, chars_of(v.as_str()).as_slice()));
        },
        None => {},
    }
    assert(out.deep_view() =~= o0 + opt_line(prefix@, o.deep_view()));
}

fn brief_what_lines_exec(d: &DocsBrief) -> (r: Vec<Vec<char>>)
    ensures
        r.deep_view() == brief_what_lines(d@),
{
    let mut out: Vec<Vec<char>> = Vec::new();
    let mut described = false;
    match &d.project_md {
        Some(p) => {
            opt_line_exec(&mut out, "  What: ", &p.what);
            described = p.what.is_some();
            opt_line_exec(&mut out, "  Status: ", &p.status);
            opt_line_exec(&mut out, "  Tech: ", &p.tech);
            opt_line_exec(&mut out, "  Last updated: ", &p.last_updated);
        },
        None => {},
    }
    let ghost first = out.deep_view();
    if !described {
        match &d.readme {
            Some(r) => opt_line_exec(&mut out, "  What: ", &r.summary),
            None => {},
        }
    }
    assert(out.deep_view() =~= brief_what_lines(d@));
    out
}

fn doc_entry_exec(path: &String, headings: &Vec<String>) -> (r: Vec<char>)
    ensures
        r@ == doc_entry(path@, headings.deep_view()),
{
    let mut v = chars_of(path.as_str());
    if headings.len() > 0 {
        extend_str(&mut v, " [");
        extend_chars(&mut v, join_strings(headings, ", ").as_slice());
        extend_str(&mut v, "]");
    }
    v
}

fn brief_docs_line_exec(d: &DocsBrief) -> (r: Vec<char>)
    ensures
        r@ == brief_docs_line(d@),
{
    let mut docs: Vec<Vec<char>> = Vec::new();
    match &d.project_md {
        Some(p) => push_line(&mut docs, doc_entry_exec(&p.path, &p.headings)),
        None => {},
    }
    match &d.readme {
        Some(r) => push_line(&mut docs, doc_entry_exec(&r.path, &r.headings)),
        None => {},
    }
    append_lines(&mut docs, char_strings(&d.other));
    assert(docs.deep_view() =~= brief_docs(d@));
    if docs.len() == 0 {
        chars_of("  Docs: none found (no PROJECT.md or README.md)")
    } else {
        cat("  Docs: ", crate::text::join_exec(&docs, chars_of(" · ").as_slice()).as_slice())
    }
}

fn brief_stack_line_exec(ps: &Vec<ProjectBrief>) -> (r: Vec<char>)
    ensures
        r@ == brief_stack_line(ps.deep_view()),
{
    if ps.len() == 0 {
        return chars_of("  Stack: none detected (supported: Rust, Node, Python, Go, Tauri)");
    }
    let ghost pv = ps.deep_view();
    let mut entries: Vec<Vec<char>> = Vec::new();
    let mut i: usize = 0;
    while i < ps.len()
        invariant
            pv == ps.deep_view(),
            i <= pv.len(),
            entries.deep_view() == pv.take(i as int).map_values(|p: ProjectBriefView| stack_entry(p)),
        decreases pv.len() - i,
    {
        let p = &ps[i];
        let mut v = chars_of(p.kind.as_str());
        match &p.name {
            Some(n) => {
                extend_str(&mut v, " \"");
                extend_str(&mut v, n.as_str());
                extend_str(&mut v, "\"");
            },
            None => {},
        }
        if crate::text::str_eq(p.root.as_str(), ".") {
            extend_str(&mut v, " (");
            extend_str(&mut v, p.manifest.as_str());
            extend_str(&mut v, ")");
        } else {
            extend_str(&mut v, " @ ");
            extend_str(&mut v, p.root.as_str());
        }
        assert(v@ =~= stack_entry(pv[i as int]));
        push_line(&mut entries, v);
        assert(pv.take(i + 1).map_values(|p: ProjectBriefView| stack_entry(p)) =~= pv.take(
            i as int,
        ).map_values(|p: ProjectBriefView| stack_entry(p)).push(stack_entry(pv[i as int])));
        i += 1;
    }
    assert(pv.take(pv.len() as int) =~= pv);
    cat("  Stack: ", crate::text::join_exec(&entries, chars_of(" · ").as_slice()).as_slice())
}

fn git_state_text_exec(g: &GitBrief) -> (r: Vec<char>)
    ensures
        r@ == git_state_text(g@),
{
    let mut v: Vec<char> = if g.dirty_count == 0 && g.untracked_count == 0 {
        chars_of("clean")
    } else {
        let mut w = decimal_exec(g.dirty_count);
        extend_str(&mut w, " dirty, ");
        extend_chars(&mut w, decimal_exec(g.untracked_count).as_slice());
        extend_str(&mut w, " untracked");
        w
    };
    let ghost v1 = v@;
    match (g.ahead, g.behind) {
        (Some(a), Some(b)) => {
            if a > 0 || b > 0 {
                extend_str(&mut v, ", ahead ");
                extend_chars(&mut v, decimal_exec(a).as_slice());
                extend_str(&mut v, "/behind ");
                extend_chars(&mut v, decimal_exec(b).as_slice());
            }
        },
        _ => {},
    }
    let ghost v2 = v@;
    match g.commit_count {
        Some(c) => {
            extend_str(&mut v, ", ");
            extend_chars(&mut v, decimal_exec(c).as_slice());
            extend_str(&mut v, " commits");
        },
        None => {},
    }
    assert(v@ =~= git_state_text(g@));
    v
}

fn brief_git_lines_exec(git: &Option<GitBrief>) -> (r: Vec<Vec<char>>)
    ensures
        r.deep_view() == brief_git_lines(git_brief_view(*git)),
{
    let mut out: Vec<Vec<char>> = Vec::new();
    match git {
        None => {
            push_str_line(&mut out, "  Git: not a git repository");
            assert(out.deep_view() =~= brief_git_lines(git_brief_view(*git)));
        },
        Some(g) => {
            let mut l = chars_of("  Git: ");
            extend_str(&mut l, g.branch.as_str());
            extend_str(&mut l, " @ ");
            extend_str(&mut l, g.head_sha.as_str());
            extend_str(&mut l, " — ");
            extend_chars(&mut l, git_state_text_exec(g).as_slice());
            push_line(&mut out, l);
            let ghost p1 = out.deep_view();
            let cf = &g.changed_files;
            let ghost cv = cf.deep_view();
            if cf.len() > 0 {
                let mut entries: Vec<Vec<char>> = Vec::new();
                let mut i: usize = 0;
                while i < cf.len()
                    invariant
                        cv == cf.deep_view(),
                        i <= cv.len(),
                        entries.deep_view() == cv.take(i as int).map_values(
                            |c: ChangedFileView| changed_entry(c),
                        ),
                    decreases cv.len() - i,
                {
                    let mut v = chars_of(cf[i].status.as_str());
                    extend_str(&mut v, " ");
                    extend_str(&mut v, cf[i].path.as_str());
                    push_line(&mut entries, v);
                    assert(cv.take(i + 1).map_values(|c: ChangedFileView| changed_entry(c)) =~= cv.take(
                        i as int,
                    ).map_values(|c: ChangedFileView| changed_entry(c)).push(changed_entry(cv[i as int])));
                    i += 1;
                }
                assert(cv.take(cv.len() as int) =~= cv);
                if g.changed_files_truncated {
                    push_str_line(&mut entries, "…");
                }
                assert(entries.deep_view() =~= cv.map_values(|c: ChangedFileView| changed_entry(c)) + if g.changed_files_truncated {
                    seq!["…"@]
                } else {
                    Seq::empty()
                });
                push_line(
                    &mut out,
                    cat("    Changed: ", crate::text::join_exec(&entries, chars_of(", ").as_slice()).as_slice()),
                );
            }
            let ghost p2 = out.deep_view();
            assert(p2 =~= p1 + line_if(
                g@.changed_files.len() > 0,
                "    Changed: "@ + join(
                    g@.changed_files.map_values(|c: ChangedFileView| changed_entry(c)) + if g@.changed_files_truncated {
                        seq!["…"@]
                    } else {
                        Seq::empty()
                    },
                    ", "@,
                ),
            ));
            let rc = &g.recent_commits;
            let ghost rv = rc.deep_view();
            if rc.len() > 0 {
                push_str_line(&mut out, "    Recent:");
                let ghost base = out.deep_view();
                let mut i: usize = 0;
                while i < rc.len()
                    invariant
                        rv == rc.deep_view(),
                        i <= rv.len(),
                        out.deep_view() == base + rv.take(i as int).map_values(
                            |c: CommitBriefView| "      "@ + c.sha + " "@ + c.message,
                        ),
                    decreases rv.len() - i,
                {
                    push_line(&mut out, commit_line_exec(&rc[i].sha, &rc[i].message));
                    assert(rv.take(i + 1).map_values(|c: CommitBriefView| "      "@ + c.sha + " "@ + c.message)
                        =~= rv.take(i as int).map_values(
                        |c: CommitBriefView| "      "@ + c.sha + " "@ + c.message,
                    ).push("      "@ + rv[i as int].sha + " "@ + rv[i as int].message));
                    i += 1;
                }
                assert(rv.take(rv.len() as int) =~= rv);
            }
            assert(out.deep_view() =~= brief_git_lines(git_brief_view(*git)));
        },
    }
    out
}

fn brief_health_lines_exec(h: &HealthBrief) -> (r: Vec<Vec<char>>)
    ensures
        r.deep_view() == brief_health_lines(*h),
{
    let ghost bv = h.blockers.deep_view();
    let ghost wv = h.warnings.deep_view();
    let mut issues: Vec<Vec<char>> = Vec::new();
    let mut i: usize = 0;
    while i < h.blockers.len()
        invariant
            bv == h.blockers.deep_view(),
            i <= bv.len(),
            issues.deep_view() == bv.take(i as int).map_values(
                |x: IssueView| "BLOCKER "@ + x.code + ": "@ + x.detail,
            ),
        decreases bv.len() - i,
    {
        let x = &h.blockers[i];
        let mut v = chars_of("BLOCKER ");
        extend_str(&mut v, x.code.as_str());
        extend_str(&mut v, ": ");
        extend_str(&mut v, x.detail.as_str());
        push_line(&mut issues, v);
        assert(bv.take(i + 1).map_values(|x: IssueView| "BLOCKER "@ + x.code + ": "@ + x.detail) =~= bv.take(
            i as int,
        ).map_values(|x: IssueView| "BLOCKER "@ + x.code + ": "@ + x.detail).push(
            "BLOCKER "@ + bv[i as int].code + ": "@ + bv[i as int].detail,
        ));
        i += 1;
    }
    assert(bv.take(bv.len() as int) =~= bv);
    let ghost first = issues.deep_view();
    let mut i: usize = 0;
    while i < h.warnings.len()
        invariant
            wv == h.warnings.deep_view(),
            i <= wv.len(),
            issues.deep_view() == first + wv.take(i as int).map_values(
                |x: IssueView| x.code + ": "@ + x.detail,
            ),
        decreases wv.len() - i,
    {
        let x = &h.warnings[i];
        let mut v = chars_of(x.code.as_str());
        extend_str(&mut v, ": ");
        extend_str(&mut v, x.detail.as_str());
        push_line(&mut issues, v);
        assert(wv.take(i + 1).map_values(|x: IssueView| x.code + ": "@ + x.detail) =~= wv.take(
            i as int,
        ).map_values(|x: IssueView| x.code + ": "@ + x.detail).push(wv[i as int].code + ": "@ + wv[i as int].detail));
        i += 1;
    }
    assert(wv.take(wv.len() as int) =~= wv);
    let ghost iv = issues.deep_view();
    assert(iv =~= health_issues(bv, wv));
    let mut out: Vec<Vec<char>> = Vec::new();
    let mut l = chars_of("  Health: ");
    extend_str(&mut l, h.status.as_str());
    extend_str(&mut l, " (");
    extend_str(&mut l, h.action_level.as_str());
    extend_str(&mut l, ")");
    push_line(&mut out, l);
    let ghost base = out.deep_view();
    let n = if issues.len() < 6 {
        issues.len()
    } else {
        6
    };
    let mut i: usize = 0;
    while i < n
        invariant
            iv == issues.deep_view(),
            n <= iv.len(),
            n == cap(iv, 6).len(),
            i <= n,
            out.deep_view() == base + iv.take(i as int).map_values(|x: Seq<char>| "    "@ + x),
        decreases n - i,
    {
        proof {
            lemma_char_deep_view(issues@[i as int]);
        }
        push_line(&mut out, cat("    ", issues[i].as_slice()));
        assert(iv.take(i + 1).map_values(|x: Seq<char>| "    "@ + x) =~= iv.take(i as int).map_values(
            |x: Seq<char>| "    "@ + x,
        ).push("    "@ + iv[i as int]));
        i += 1;
    }
    assert(iv.take(n as int) =~= cap(iv, 6));
    if issues.len() > 6 {
        let mut l = chars_of("    … ");
        extend_chars(&mut l, decimal_exec(issues.len() - 6).as_slice());
        extend_str(&mut l, " more (see probe doctor)");
        push_line(&mut out, l);
    }
    assert(out.deep_view() =~= brief_health_lines(*h));
    out
}

fn brief_todo_line_exec(t: &TodoBrief) -> (r: Vec<char>)
    ensures
        r@ == brief_todo_line(*t),
{
    let bounded = if t.truncated {
        " (bounded)"
    } else {
        ""
    };
    proof {
        reveal_strlit("");
    }
    assert(bounded@ == bounded_note(t.truncated)) by {
        if !t.truncated {
            assert(""@ =~= Seq::<char>::empty());
        }
    }
    if t.total == 0 {
        let mut v = chars_of("  TODO markers: none in ");
        extend_chars(&mut v, decimal_exec(t.files_scanned).as_slice());
        extend_str(&mut v, " files scanned");
        extend_str(&mut v, bounded);
        return v;
    }
    let fs = &t.top_files;
    let ghost fv = fs.deep_view();
    let mut entries: Vec<Vec<char>> = Vec::new();
    let mut i: usize = 0;
    while i < fs.len()
        invariant
            fv == fs.deep_view(),
            i <= fv.len(),
            entries.deep_view() == fv.take(i as int).map_values(|f: TodoFileView| todo_entry_text(f)),
        decreases fv.len() - i,
    {
        let mut v = chars_of(fs[i].path.as_str());
        extend_str(&mut v, " ×");
        extend_chars(&mut v, decimal_exec(fs[i].count).as_slice());
        push_line(&mut entries, v);
        assert(fv.take(i + 1).map_values(|f: TodoFileView| todo_entry_text(f)) =~= fv.take(
            i as int,
        ).map_values(|f: TodoFileView| todo_entry_text(f)).push(todo_entry_text(fv[i as int])));
        i += 1;
    }
    assert(fv.take(fv.len() as int) =~= fv);
    let mut v = chars_of("  TODO markers: ");
    extend_chars(&mut v, decimal_exec(t.total).as_slice());
    extend_str(&mut v, " across ");
    extend_chars(&mut v, decimal_exec(t.files_scanned).as_slice());
    extend_str(&mut v, " files scanned");
    extend_str(&mut v, bounded);
    extend_str(&mut v, " — ");
    extend_chars(&mut v, crate::text::join_exec(&entries, chars_of(", ").as_slice()).as_slice());
    v
}

fn suite_part_exec(out: &mut Vec<Vec<char>>, label: &str, names: &Vec<String>)
    ensures
        final(out).deep_view() == old(out).deep_view() + line_if(
            names@.len() > 0,
            label@ + join(names.deep_view(), ", "@),
        ),
{
    let ghost o0 = out.deep_view();
    if names.len() > 0 {
        push_line(out, cat(label, join_strings(names, ", ").as_slice()));
    }
    assert(out.deep_view() =~= o0 + line_if(names@.len() > 0, label@ + join(names.deep_view(), ", "@)));
}

fn run_lines_exec(cs: &Vec<DoctorCommand>) -> (r: Vec<Vec<char>>)
    ensures
        r.deep_view() == brief_run_lines(cs.deep_view()),
{
    let mut out: Vec<Vec<char>> = Vec::new();
    if cs.len() == 0 {
        push_str_line(&mut out, "  Run: no commands inferred; read the docs above for build/run steps");
        assert(out.deep_view() =~= brief_run_lines(cs.deep_view()));
        return out;
    }
    push_str_line(&mut out, "  Run:");
    let ghost cv = cs.deep_view();
    let ghost base = out.deep_view();
    let mut i: usize = 0;
    while i < cs.len()
        invariant
            cv == cs.deep_view(),
            i <= cv.len(),
            out.deep_view() == base + cv.take(i as int).map_values(|c: SuggestedCommandView| run_line(c)),
        decreases cv.len() - i,
    {
        let c = &cs[i];
        let mut v = chars_of("    ");
        let action = chars_of(c.action.as_str());
        extend_chars(&mut v, action.as_slice());
        let mut k: usize = action.len();
        let ghost pre = v@;
        while k < 8
            invariant
                action@.len() <= k <= 8 || (k == action@.len() && k >= 8),
                v@ == pre + Seq::new((k - action@.len()) as nat, |j: int| ' '),
            decreases 8 - k,
        {
            let ghost v0 = v@;
            v.push(' ');
            assert(v@ =~= pre + Seq::new((k + 1 - action@.len()) as nat, |j: int| ' '));
            k += 1;
        }
        assert(v@ =~= "    "@ + pad_right(c.action@, 8));
        extend_str(&mut v, " ");
        extend_str(&mut v, c.command.as_str());
        extend_str(&mut v, "  [");
        extend_str(&mut v, c.confidence.as_str());
        extend_str(&mut v, "]");
        push_line(&mut out, v);
        assert(cv.take(i + 1).map_values(|c: SuggestedCommandView| run_line(c)) =~= cv.take(
            i as int,
        ).map_values(|c: SuggestedCommandView| run_line(c)).push(run_line(cv[i as int])));
        i += 1;
    }
    assert(cv.take(cv.len() as int) =~= cv);
    assert(out.deep_view() =~= brief_run_lines(cv));
    out
}

fn brief_head_lines_exec(r: &BriefReport) -> (out: Vec<Vec<char>>)
    ensures
        out.deep_view() == brief_head_lines(*r),
{
    let mut out: Vec<Vec<char>> = Vec::new();
    let mut h = chars_of("probe brief: ");
    extend_str(&mut h, r.name.as_str());
    extend_str(&mut h, " (");
    extend_str(&mut h, r.repo_path.as_str());
    extend_str(&mut h, ")");
    push_line(&mut out, h);
    push_line(&mut out, Vec::new());
    append_lines(&mut out, brief_what_lines_exec(&r.docs));
    push_line(&mut out, brief_docs_line_exec(&r.docs));
    push_line(&mut out, Vec::new());
    push_line(&mut out, brief_stack_line_exec(&r.projects));
    if r.markers.len() > 0 {
        push_line(&mut out, cat("  Markers: ", join_strings(&r.markers, " · ").as_slice()));
    }
    assert(out.deep_view() =~= brief_head_lines(*r));
    out
}

fn brief_middle_lines_exec(r: &BriefReport) -> (out: Vec<Vec<char>>)
    ensures
        out.deep_view() == brief_middle_lines(*r),
{
    let mut out = brief_git_lines_exec(&r.git);
    push_line(&mut out, Vec::new());
    append_lines(&mut out, brief_health_lines_exec(&r.health));
    suite_part_exec(&mut out, "  Missing tools: ", &r.tools.missing);
    suite_part_exec(&mut out, "  Stale lockfiles: ", &r.lockfiles.stale);
    push_line(&mut out, brief_todo_line_exec(&r.todos));
    assert(out.deep_view() =~= brief_middle_lines(*r));
    out
}

fn brief_tail_lines_exec(r: &BriefReport) -> (out: Vec<Vec<char>>)
    ensures
        out.deep_view() == brief_tail_lines(*r),
{
    let mut out: Vec<Vec<char>> = Vec::new();
    let mut parts: Vec<Vec<char>> = Vec::new();
    suite_part_exec(&mut parts, "linked ", &r.suite_tools.linked);
    suite_part_exec(&mut parts, "available ", &r.suite_tools.available);
    suite_part_exec(&mut parts, "missing ", &r.suite_tools.missing);
    assert(parts.deep_view() =~= suite_parts(r.suite_tools));
    if parts.len() > 0 {
        push_line(
            &mut out,
            cat("  Suite: ", crate::text::join_exec(&parts, chars_of(" · ").as_slice()).as_slice()),
        );
    }
    let ghost a4 = out.deep_view();
    match &r.sentinel {
        Some(x) => {
            let mut l = chars_of("  Sentinel: ");
            extend_chars(&mut l, decimal_exec(x.tracked_files).as_slice());
            extend_str(&mut l, " tracked, ");
            extend_chars(&mut l, decimal_exec(x.high_risk).as_slice());
            extend_str(&mut l, " high-risk, ");
            extend_chars(&mut l, decimal_exec(x.medium_risk).as_slice());
            extend_str(&mut l, " medium-risk");
            push_line(&mut out, l);
        },
        None => {},
    }
    assert(out.deep_view() =~= a4 + sentinel_lines(r.sentinel));
    push_line(&mut out, Vec::new());
    append_lines(&mut out, run_lines_exec(&r.commands));
    push_line(&mut out, Vec::new());
    push_str_line(&mut out, "  Detail: probe scan · probe doctor");
    assert(out.deep_view() =~= brief_tail_lines(*r));
    out
}

/// The text `probe brief` prints.
pub fn render_brief_text(r: &BriefReport) -> (t: String)
    ensures
        t@ == unlines(brief_text_lines(*r)),
{
    let mut out = brief_head_lines_exec(r);
    append_lines(&mut out, brief_middle_lines_exec(r));
    append_lines(&mut out, brief_tail_lines_exec(r));
    text_of_lines(&out)
}

/// The scan text reports a dirty or untracked working tree on a line of
/// its own: the number of changed tracked files, then the number of
/// untracked ones.
pub proof fn law_scan_text_dirty_line(r: ScanView)
    requires
        r.git matches Some(g) && (g.dirty_count > 0 || g.untracked_count > 0),
    ensures
        scan_text_lines(r).contains(
            "    "@ + decimal(r.git->0.dirty_count) + " dirty, "@ + decimal(r.git->0.untracked_count)
                + " untracked"@,
        ),
{
    let g = r.git->0;
    let line = "    "@ + decimal(g.dirty_count) + " dirty, "@ + decimal(g.untracked_count) + " untracked"@;
    let pre = seq!["probe scan: "@ + r.repo_path, "  Schema: "@ + r.schema_version, Seq::empty()]
        + scan_projects_lines(r.projects) + seq![Seq::empty()];
    let gl = scan_git_lines(r.git);
    assert(gl[1] == line);
    assert(scan_text_lines(r)[pre.len() + 1int] == line);
}

/// The brief's git summary opens with the working tree's counts: the
/// number of changed tracked files, then the number of untracked ones, or
/// `clean` when there are neither.
pub proof fn law_brief_git_counts(g: GitBriefView)
    ensures
        (g.dirty_count > 0 || g.untracked_count > 0) ==> ({
            let w = decimal(g.dirty_count) + " dirty, "@ + decimal(g.untracked_count) + " untracked"@;
            git_state_text(g).subrange(0, w.len() as int) == w
        }),
        (g.dirty_count == 0 && g.untracked_count == 0) ==> git_state_text(g).subrange(
            0,
            ("clean"@).len() as int,
        ) == "clean"@,
{
    let t = git_state_text(g);
    let w = if g.dirty_count == 0 && g.untracked_count == 0 {
        "clean"@
    } else {
        decimal(g.dirty_count) + " dirty, "@ + decimal(g.untracked_count) + " untracked"@
    };
    assert(t.subrange(0, w.len() as int) =~= w);
}

} // verus!
