//! Git state, read from the output of git's plumbing commands.
use vstd::prelude::*;

use crate::text::{
    chars_of, lemma_char_deep_view, lines, lines_exec, lit, opt_nat, parse_usize,
    parse_usize_exec, slice_vec, starts_with, starts_with_exec, string_of, trim, trim_exec, words,
    words_exec,
};

verus! {

broadcast use vstd::string::group_string_axioms;

/// One commit of `git log`.
pub struct RecentCommit {
    pub sha: String,
    pub message: String,
    pub author: String,
    pub date: String,
}

/// The view of a `RecentCommit`.


pub struct RecentCommitView {
    pub sha: Seq<char>,
    pub message: Seq<char>,
    pub author: Seq<char>,
    pub date: Seq<char>,
}

impl View for RecentCommit {
    type V = RecentCommitView;

    open spec fn view(&self) -> RecentCommitView {
        RecentCommitView { sha: self.sha@, message: self.message@, author: self.author@, date: self.date@ }
    }
}

impl DeepView for RecentCommit {
    type V = RecentCommitView;

    open spec fn deep_view(&self) -> RecentCommitView {
        self@
    }
}

/// Branch, HEAD, working-tree and upstream state of a repository.
pub struct GitState {
    pub branch: String,
    pub head_sha: String,
    pub dirty_count: usize,
    pub untracked_count: usize,
    pub ahead: Option<usize>,
    pub behind: Option<usize>,
    pub recent_commits: Vec<RecentCommit>,
}

/// The view of a `GitState`.


pub struct GitStateView {
    pub branch: Seq<char>,
    pub head_sha: Seq<char>,
    pub dirty_count: nat,
    pub untracked_count: nat,
    pub ahead: Option<nat>,
    pub behind: Option<nat>,
    pub recent_commits: Seq<RecentCommitView>,
}

impl View for GitState {
    type V = GitStateView;

    open spec fn view(&self) -> GitStateView {
        GitStateView {
            branch: self.branch@,
            head_sha: self.head_sha@,
            dirty_count: self.dirty_count as nat,
            untracked_count: self.untracked_count as nat,
            ahead: opt_nat(self.ahead),
            behind: opt_nat(self.behind),
            recent_commits: self.recent_commits.deep_view(),
        }
    }
}

impl DeepView for GitState {
    type V = GitStateView;

    open spec fn deep_view(&self) -> GitStateView {
        self@
    }
}

/// A path that `git status` lists, with its two-letter status trimmed.
pub struct ChangedFile {
    pub status: String,
    pub path: String,
}

/// The view of a `ChangedFile`.


pub struct ChangedFileView {
    pub status: Seq<char>,
    pub path: Seq<char>,
}

impl View for ChangedFile {
    type V = ChangedFileView;

    open spec fn view(&self) -> ChangedFileView {
        ChangedFileView { status: self.status@, path: self.path@ }
    }
}

impl DeepView for ChangedFile {
    type V = ChangedFileView;

    open spec fn deep_view(&self) -> ChangedFileView {
        self@
    }
}

// ---------------------------------------------------------------------------
// Single-value outputs
// ---------------------------------------------------------------------------

/// The branch `git branch --show-current` names; `HEAD` when the command
/// failed or printed nothing (a detached HEAD).
pub open spec fn branch_of(out: Option<Seq<char>>) -> Seq<char> {
    match out {
        Some(o) => if trim(o).len() > 0 {
            trim(o)
        } else {
            "HEAD"@
        },
        None => "HEAD"@,
    }
}

/// The abbreviated HEAD that `git rev-parse --short HEAD` printed, empty
/// when it failed.
pub open spec fn head_of(out: Option<Seq<char>>) -> Seq<char> {
    match out {
        Some(o) => trim(o),
        None => Seq::empty(),
    }
}

fn trimmed_string(s: &str) -> (r: String)
    ensures
        r@ == trim(s@),
{
    let c = chars_of(s);
    let t = trim_exec(c.as_slice());
    string_of(t.as_slice())
}

/// The current branch, from the output of `git branch --show-current`.
pub fn parse_branch(out: &Option<String>) -> (r: String)
    ensures
        r@ == branch_of(out.deep_view()),
{
    match out {
        Some(o) => {
            let t = trimmed_string(o.as_str());
            let tc = chars_of(t.as_str());
            if tc.len() > 0 {
                t
            } else {
                lit("HEAD")
            }
        },
        None => lit("HEAD"),
    }
}

/// The abbreviated HEAD, from the output of `git rev-parse --short HEAD`.
pub fn parse_head_sha(out: &Option<String>) -> (r: String)
    ensures
        r@ == head_of(out.deep_view()),
{
    match out {
        Some(o) => trimmed_string(o.as_str()),
        None => String::new(),
    }
}

/// The commit count `git rev-list --count HEAD` printed.
pub open spec fn commit_count_of(out: Option<Seq<char>>) -> Option<nat> {
    match out {
        Some(o) => parse_usize(trim(o)),
        None => None,
    }
}

/// The commit count, from the output of `git rev-list --count HEAD`.
pub fn parse_commit_count(out: &Option<String>) -> (r: Option<usize>)
    ensures
        opt_nat(r) == commit_count_of(out.deep_view()),
{
    match out {
        Some(o) => {
            let c = chars_of(o.as_str());
            let t = trim_exec(c.as_slice());
            parse_usize_exec(t.as_slice())
        },
        None => None,
    }
}

// ---------------------------------------------------------------------------
// git status --porcelain
// ---------------------------------------------------------------------------

/// An untracked entry of `git status --porcelain`.
pub open spec fn is_untracked_line(l: Seq<char>) -> bool {
    starts_with(l, "??"@)
}

/// A modified (staged or not) entry of `git status --porcelain`.
pub open spec fn is_dirty_line(l: Seq<char>) -> bool {
    !is_untracked_line(l) && l.len() > 0
}

/// How many of `ls` are untracked entries.
pub open spec fn untracked_in(ls: Seq<Seq<char>>) -> nat
    decreases ls.len(),
{
    if ls.len() == 0 {
        0
    } else {
        untracked_in(ls.drop_last()) + if is_untracked_line(ls.last()) {
            1nat
        } else {
            0nat
        }
    }
}

/// How many of `ls` are modified entries.
pub open spec fn dirty_in(ls: Seq<Seq<char>>) -> nat
    decreases ls.len(),
{
    if ls.len() == 0 {
        0
    } else {
        dirty_in(ls.drop_last()) + if is_dirty_line(ls.last()) {
            1nat
        } else {
            0nat
        }
    }
}

proof fn lemma_counts_bounded(ls: Seq<Seq<char>>)
    ensures
        dirty_in(ls) + untracked_in(ls) <= ls.len(),
    decreases ls.len(),
{
    if ls.len() > 0 {
        lemma_counts_bounded(ls.drop_last());
    }
}

/// Modified and untracked counts in the output of `git status --porcelain`;
/// none when the command failed.
pub open spec fn dirty_counts_of(out: Option<Seq<char>>) -> (nat, nat) {
    match out {
        Some(o) => (dirty_in(lines(o)), untracked_in(lines(o))),
        None => (0, 0),
    }
}

/// Modified and untracked counts, from `git status --porcelain`.
pub fn parse_dirty_counts(out: &Option<String>) -> (r: (usize, usize))
    ensures
        (r.0 as nat, r.1 as nat) == dirty_counts_of(out.deep_view()),
{
    match out {
        Some(o) => {
            let c = chars_of(o.as_str());
            let ls = lines_exec(c.as_slice());
            let ghost lv = ls.deep_view();
            let q = chars_of("??");
            let mut dirty: usize = 0;
            let mut untracked: usize = 0;
            let mut i: usize = 0;
            while i < ls.len()
                invariant
                    lv == ls.deep_view(),
                    q@ == "??"@,
                    i <= lv.len(),
                    dirty as nat == dirty_in(lv.take(i as int)),
                    untracked as nat == untracked_in(lv.take(i as int)),
                decreases lv.len() - i,
            {
                assert(lv.take(i + 1).drop_last() =~= lv.take(i as int));
                proof {
                    lemma_char_deep_view(ls@[i as int]);
                    lemma_counts_bounded(lv.take(i + 1));
                }
                if starts_with_exec(ls[i].as_slice(), q.as_slice()) {
                    untracked += 1;
                } else if ls[i].len() > 0 {
                    dirty += 1;
                }
                i += 1;
            }
            assert(lv.take(lv.len() as int) =~= lv);
            (dirty, untracked)
        },
        None => (0, 0),
    }
}

/// An entry of `git status --porcelain`: the status letters, trimmed, and
/// the path after them.
pub open spec fn changed_file_of(l: Seq<char>) -> Option<ChangedFileView> {
    if l.len() >= 4 {
        Some(ChangedFileView { status: trim(l.take(2)), path: l.skip(3) })
    } else {
        None
    }
}

/// The changed files `git status --porcelain` lists, at most `limit` of
/// them, and whether more were left out.
pub open spec fn changed_files_of(out: Option<Seq<char>>, limit: nat) -> (Seq<ChangedFileView>, bool) {
    match out {
        Some(o) => {
            let all = lines(o).filter_map(|l: Seq<char>| changed_file_of(l));
            if all.len() > limit {
                (all.take(limit as int), true)
            } else {
                (all, false)
            }
        },
        None => (Seq::empty(), false),
    }
}

/// The changed files, from `git status --porcelain`, at most `limit` of them.
pub fn parse_changed_files(out: &Option<String>, limit: usize) -> (r: (Vec<ChangedFile>, bool))
    ensures
        (r.0.deep_view(), r.1) == changed_files_of(out.deep_view(), limit as nat),
{
    match out {
        Some(o) => {
            let c = chars_of(o.as_str());
            let ls = lines_exec(c.as_slice());
            let ghost lv = ls.deep_view();
            let ghost f = |l: Seq<char>| changed_file_of(l);
            let mut all: Vec<ChangedFile> = Vec::new();
            let mut i: usize = 0;
            while i < ls.len()
                invariant
                    lv == ls.deep_view(),
                    i <= lv.len(),
                    f == (|l: Seq<char>| changed_file_of(l)),
                    all.deep_view() == lv.take(i as int).filter_map(f),
                decreases lv.len() - i,
            {
                assert(lv.take(i + 1).drop_last() =~= lv.take(i as int));
                proof {
                    lemma_char_deep_view(ls@[i as int]);
                }
                let l = &ls[i];
                if l.len() >= 4 {
                    let st = slice_vec(l.as_slice(), 0, 2);
                    let st = trim_exec(st.as_slice());
                    let path = slice_vec(l.as_slice(), 3, l.len());
                    assert(path@ =~= lv[i as int].skip(3));
                    let cf = ChangedFile { status: string_of(st.as_slice()), path: string_of(path.as_slice()) };
                    let ghost a0 = all.deep_view();
                    let ghost cv = cf@;
                    all.push(cf);
                    assert(all.deep_view() =~= a0 + seq![cv]);
                }
                i += 1;
            }
            assert(lv.take(lv.len() as int) =~= lv);
            if all.len() > limit {
                let ghost a0 = all.deep_view();
                all.truncate(limit);
                assert(all.deep_view() =~= a0.take(limit as int));
                (all, true)
            } else {
                (all, false)
            }
        },
        None => (Vec::new(), false),
    }
}

// ---------------------------------------------------------------------------
// Upstream and log
// ---------------------------------------------------------------------------

/// Ahead and behind counts from `git rev-list --left-right --count
/// HEAD...@{upstream}`: two numbers, else none.
pub open spec fn ahead_behind_of(out: Option<Seq<char>>) -> (Option<nat>, Option<nat>) {
    match out {
        Some(o) => {
            let parts = words(trim(o));
            if parts.len() == 2 {
                (parse_usize(parts[0]), parse_usize(parts[1]))
            } else {
                (None, None)
            }
        },
        None => (None, None),
    }
}

/// Ahead and behind counts, from `git rev-list --left-right --count`.
pub fn parse_ahead_behind(out: &Option<String>) -> (r: (Option<usize>, Option<usize>))
    ensures
        (opt_nat(r.0), opt_nat(r.1)) == ahead_behind_of(out.deep_view()),
{
    match out {
        Some(o) => {
            let c = chars_of(o.as_str());
            let t = trim_exec(c.as_slice());
            let parts = words_exec(t.as_slice());
            if parts.len() == 2 {
                proof {
                    lemma_char_deep_view(parts@[0]);
                    lemma_char_deep_view(parts@[1]);
                }
                (parse_usize_exec(parts[0].as_slice()), parse_usize_exec(parts[1].as_slice()))
            } else {
                (None, None)
            }
        },
        None => (None, None),
    }
}

/// The first `|` in `s` at or after `i`.
pub open spec fn bar_from(s: Seq<char>, i: int) -> Option<int>
    decreases s.len() - i,
{
    if i < 0 || i >= s.len() {
        None
    } else if s[i] == '|' {
        Some(i)
    } else {
        bar_from(s, i + 1)
    }
}

fn bar_from_exec(s: &[char], i: usize) -> (r: Option<usize>)
    ensures
        opt_nat(r) == (match bar_from(s@, i as int) {
            Some(k) => Some(k as nat),
            None => None,
        }),
        r matches Some(k) ==> i <= k < s@.len(),
{
    let mut k = i;
    while k < s.len()
        invariant
            i <= k,
            bar_from(s@, i as int) == bar_from(s@, k as int),
        decreases s@.len() - k,
    {
        if s[k] == '|' {
            return Some(k);
        }
        k += 1;
    }
    None
}

/// One `git log --format=%h|%s|%an|%aI` line, split at its first three
/// `|`s; the date takes the rest.
pub open spec fn commit_of(l: Seq<char>) -> Option<RecentCommitView> {
    match bar_from(l, 0) {
        None => None,
        Some(a) => match bar_from(l, a + 1) {
            None => None,
            Some(b) => match bar_from(l, b + 1) {
                None => None,
                Some(c) => Some(
                    RecentCommitView {
                        sha: l.subrange(0, a),
                        message: l.subrange(a + 1, b),
                        author: l.subrange(b + 1, c),
                        date: l.skip(c + 1),
                    },
                ),
            },
        },
    }
}

proof fn lemma_bar_from_bounds(s: Seq<char>, i: int)
    ensures
        bar_from(s, i) matches Some(k) ==> i <= k < s.len() && s[k] == '|',
    decreases s.len() - i,
{
    if i >= 0 && i < s.len() && s[i] != '|' {
        lemma_bar_from_bounds(s, i + 1);
    }
}

fn commit_of_exec(l: &[char]) -> (r: Option<RecentCommit>)
    ensures
        r.deep_view() == commit_of(l@),
{
    proof {
        lemma_bar_from_bounds(l@, 0);
    }
    let a = match bar_from_exec(l, 0) {
        Some(a) => a,
        None => return None,
    };
    assert(a < l.len());
    proof {
        lemma_bar_from_bounds(l@, a + 1);
    }
    let b = match bar_from_exec(l, a + 1) {
        Some(b) => b,
        None => return None,
    };
    assert(b < l.len());
    proof {
        lemma_bar_from_bounds(l@, b + 1);
    }
    let c = match bar_from_exec(l, b + 1) {
        Some(c) => c,
        None => return None,
    };
    let sha = slice_vec(l, 0, a);
    let message = slice_vec(l, a + 1, b);
    let author = slice_vec(l, b + 1, c);
    let date = slice_vec(l, c + 1, l.len());
    assert(date@ =~= l@.skip(c + 1));
    Some(
        RecentCommit {
            sha: string_of(sha.as_slice()),
            message: string_of(message.as_slice()),
            author: string_of(author.as_slice()),
            date: string_of(date.as_slice()),
        },
    )
}

/// The commits `git log` listed; lines that do not split into four fields
/// are skipped.
pub open spec fn commits_of(out: Option<Seq<char>>) -> Seq<RecentCommitView> {
    match out {
        Some(o) => lines(o).filter_map(|l: Seq<char>| commit_of(l)),
        None => Seq::empty(),
    }
}

/// The commits, from `git log --format=%h|%s|%an|%aI`.
pub fn parse_recent_commits(out: &Option<String>) -> (r: Vec<RecentCommit>)
    ensures
        r.deep_view() == commits_of(out.deep_view()),
{
    match out {
        Some(o) => {
            let c = chars_of(o.as_str());
            let ls = lines_exec(c.as_slice());
            let ghost lv = ls.deep_view();
            let ghost f = |l: Seq<char>| commit_of(l);
            let mut all: Vec<RecentCommit> = Vec::new();
            let mut i: usize = 0;
            while i < ls.len()
                invariant
                    lv == ls.deep_view(),
                    i <= lv.len(),
                    f == (|l: Seq<char>| commit_of(l)),
                    all.deep_view() == lv.take(i as int).filter_map(f),
                decreases lv.len() - i,
            {
                assert(lv.take(i + 1).drop_last() =~= lv.take(i as int));
                proof {
                    lemma_char_deep_view(ls@[i as int]);
                }
                match commit_of_exec(ls[i].as_slice()) {
                    Some(cm) => {
                        let ghost a0 = all.deep_view();
                        let ghost cv = cm@;
                        all.push(cm);
                        assert(all.deep_view() =~= a0 + seq![cv]);
                    },
                    None => {},
                }
                i += 1;
            }
            assert(lv.take(lv.len() as int) =~= lv);
            all
        },
        None => Vec::new(),
    }
}

/// The outputs of the git commands that inspect a repository; `None` for a command
/// that failed.
pub struct GitOutputs {
    pub branch: Option<String>,
    pub head: Option<String>,
    pub status: Option<String>,
    pub ahead_behind: Option<String>,
    pub log: Option<String>,
}

/// The state those outputs describe.
pub open spec fn git_state_of(o: GitOutputs) -> GitStateView {
    GitStateView {
        branch: branch_of(o.branch.deep_view()),
        head_sha: head_of(o.head.deep_view()),
        dirty_count: dirty_counts_of(o.status.deep_view()).0,
        untracked_count: dirty_counts_of(o.status.deep_view()).1,
        ahead: ahead_behind_of(o.ahead_behind.deep_view()).0,
        behind: ahead_behind_of(o.ahead_behind.deep_view()).1,
        recent_commits: commits_of(o.log.deep_view()),
    }
}

/// The git state of a repository, from the outputs of the commands that
/// inspect it.
pub fn git_state_from(outputs: &GitOutputs) -> (r: GitState)
    ensures
        r@ == git_state_of(*outputs),
{
    let (dirty_count, untracked_count) = parse_dirty_counts(&outputs.status);
    let (ahead, behind) = parse_ahead_behind(&outputs.ahead_behind);
    GitState {
        branch: parse_branch(&outputs.branch),
        head_sha: parse_head_sha(&outputs.head),
        dirty_count,
        untracked_count,
        ahead,
        behind,
        recent_commits: parse_recent_commits(&outputs.log),
    }
}

} // verus!
