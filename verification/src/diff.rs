//! Drift between a baseline scan and the current one.
use vstd::prelude::*;

use crate::detect::{opt_string_copy, DetectedProject, ProjectView};
use crate::git::{GitState, GitStateView};
use crate::order::{btree_order, is_last_key_order, last_key_order, tuple_eq_exec};
use crate::scan::{LockfileInfo, LockfileInfoView, ScanResult, ScanView, SuggestedCommand, SuggestedCommandView};
use crate::seq_facts::concat_map;
use crate::text::{chars_of, extend_chars, extend_str, lemma_char_deep_view, lit, opt_nat, str_eq, string_of};
use crate::tools::{SuiteToolInfo, SuiteToolInfoView, ToolInfo, ToolInfoView};

verus! {

broadcast use vstd::string::group_string_axioms;

/// A value shown before or after a change (a JSON value in reports).
pub enum DiffValue {
    Null,
    Text(String),
    Count(usize),
    Flag(bool),
    GitRef { branch: String, head_sha: String },
    Tool { available: bool, version: Option<String> },
    Lockfile { hash: String, stale: bool },
    Command { action: String, command: String, confidence: String },
}

/// The view of a `DiffValue`.


pub enum ValueView {
    Null,
    Text(Seq<char>),
    Count(nat),
    Flag(bool),
    GitRef { branch: Seq<char>, head_sha: Seq<char> },
    Tool { available: bool, version: Option<Seq<char>> },
    Lockfile { hash: Seq<char>, stale: bool },
    Command { action: Seq<char>, command: Seq<char>, confidence: Seq<char> },
}

impl View for DiffValue {
    type V = ValueView;

    open spec fn view(&self) -> ValueView {
        match self {
            DiffValue::Null => ValueView::Null,
            DiffValue::Text(t) => ValueView::Text(t@),
            DiffValue::Count(n) => ValueView::Count(*n as nat),
            DiffValue::Flag(b) => ValueView::Flag(*b),
            DiffValue::GitRef { branch, head_sha } => ValueView::GitRef { branch: branch@, head_sha: head_sha@ },
            DiffValue::Tool { available, version } => ValueView::Tool {
                available: *available,
                version: version.deep_view(),
            },
            DiffValue::Lockfile { hash, stale } => ValueView::Lockfile { hash: hash@, stale: *stale },
            DiffValue::Command { action, command, confidence } => ValueView::Command {
                action: action@,
                command: command@,
                confidence: confidence@,
            },
        }
    }
}

/// One difference between the baseline and the current scan.
pub struct DiffChange {
    pub kind: String,
    pub severity: String,
    pub field: String,
    pub before: DiffValue,
    pub after: DiffValue,
    pub message: String,
}

/// The view of a `DiffChange`.


pub struct ChangeView {
    pub kind: Seq<char>,
    pub severity: Seq<char>,
    pub field: Seq<char>,
    pub before: ValueView,
    pub after: ValueView,
    pub message: Seq<char>,
}

impl View for DiffChange {
    type V = ChangeView;

    open spec fn view(&self) -> ChangeView {
        ChangeView {
            kind: self.kind@,
            severity: self.severity@,
            field: self.field@,
            before: self.before@,
            after: self.after@,
            message: self.message@,
        }
    }
}

impl DeepView for DiffChange {
    type V = ChangeView;

    open spec fn deep_view(&self) -> ChangeView {
        self@
    }
}

/// How many changes there are, and how many of each severity.
pub struct DiffSummary {
    pub changes: usize,
    pub blockers: usize,
    pub warnings: usize,
    pub info: usize,
}

/// The drift report.
pub struct DiffReport {
    pub repo_path: String,
    pub baseline_path: String,
    pub baseline_timestamp: String,
    pub current_timestamp: String,
    pub summary: DiffSummary,
    pub changes: Vec<DiffChange>,
}

pub open spec fn change(
    kind: Seq<char>,
    severity: Seq<char>,
    field: Seq<char>,
    before: ValueView,
    after: ValueView,
    message: Seq<char>,
) -> ChangeView {
    ChangeView { kind, severity, field, before, after, message }
}

/// An optional count as a value: null when absent.
pub open spec fn count_value(o: Option<nat>) -> ValueView {
    match o {
        Some(n) => ValueView::Count(n),
        None => ValueView::Null,
    }
}

/// An optional text as a value: null when absent.
pub open spec fn text_value(o: Option<Seq<char>>) -> ValueView {
    match o {
        Some(t) => ValueView::Text(t),
        None => ValueView::Null,
    }
}

/// `[x]` when `b`, else nothing.
pub open spec fn if_change(b: bool, x: ChangeView) -> Seq<ChangeView> {
    if b {
        seq![x]
    } else {
        Seq::empty()
    }
}

/// Keys of one string each.
pub open spec fn key1(k: Seq<char>) -> Seq<Seq<char>> {
    seq![k]
}

// ---------------------------------------------------------------------------
// Projects
// ---------------------------------------------------------------------------

/// What identifies a project across scans.
pub open spec fn project_key(p: ProjectView) -> Seq<char> {
    p.kind + ":"@ + p.root + ":"@ + p.manifest
}

/// How a project is named in messages.
pub open spec fn project_label(p: ProjectView) -> Seq<char> {
    p.kind + " at "@ + p.root + " ("@ + p.manifest + ")"@
}

pub open spec fn project_keys(ps: Seq<ProjectView>) -> Seq<Seq<Seq<char>>> {
    ps.map_values(|p: ProjectView| key1(project_key(p)))
}

/// A baseline project at position `i`, if the current scan lacks it.
pub open spec fn project_removed(base: Seq<ProjectView>, cur: Seq<ProjectView>, i: usize) -> Seq<ChangeView> {
    if_change(
        !project_keys(cur).contains(project_keys(base)[i as int]),
        change(
            "project"@,
            "warning"@,
            "projects"@,
            ValueView::Text(project_label(base[i as int])),
            ValueView::Null,
            "Project removed: "@ + project_label(base[i as int]),
        ),
    )
}

/// A current project at position `i`, if the baseline lacks it.
pub open spec fn project_added(base: Seq<ProjectView>, cur: Seq<ProjectView>, i: usize) -> Seq<ChangeView> {
    if_change(
        !project_keys(base).contains(project_keys(cur)[i as int]),
        change(
            "project"@,
            "warning"@,
            "projects"@,
            ValueView::Null,
            ValueView::Text(project_label(cur[i as int])),
            "Project added: "@ + project_label(cur[i as int]),
        ),
    )
}

/// Projects removed, then projects added, each in key order.
pub open spec fn project_changes(base: Seq<ProjectView>, cur: Seq<ProjectView>) -> Seq<ChangeView> {
    concat_map(btree_order(project_keys(base)), |i: usize| project_removed(base, cur, i))
        + concat_map(btree_order(project_keys(cur)), |i: usize| project_added(base, cur, i))
}

// ---------------------------------------------------------------------------
// Git
// ---------------------------------------------------------------------------

pub open spec fn git_ref(g: GitStateView) -> ValueView {
    ValueView::GitRef { branch: g.branch, head_sha: g.head_sha }
}

/// Git appearing, disappearing, or changing branch, HEAD, counts or
/// upstream distance.
pub open spec fn git_changes(base: Option<GitStateView>, cur: Option<GitStateView>) -> Seq<ChangeView> {
    match (base, cur) {
        (None, None) => Seq::empty(),
        (None, Some(g)) => seq![
            change("git"@, "info"@, "git"@, ValueView::Null, git_ref(g), "Git repository detected"@),
        ],
        (Some(g), None) => seq![
            change("git"@, "warning"@, "git"@, git_ref(g), ValueView::Null, "Git repository no longer detected"@),
        ],
        (Some(b), Some(a)) => if_change(
            b.branch != a.branch,
            change(
                "git"@,
                "warning"@,
                "git.branch"@,
                ValueView::Text(b.branch),
                ValueView::Text(a.branch),
                "Git branch changed"@,
            ),
        ) + if_change(
            b.head_sha != a.head_sha,
            change(
                "git"@,
                "info"@,
                "git.head_sha"@,
                ValueView::Text(b.head_sha),
                ValueView::Text(a.head_sha),
                "Git HEAD changed"@,
            ),
        ) + if_change(
            b.dirty_count != a.dirty_count,
            change(
                "git"@,
                "warning"@,
                "git.dirty_count"@,
                ValueView::Count(b.dirty_count),
                ValueView::Count(a.dirty_count),
                "Dirty file count changed"@,
            ),
        ) + if_change(
            b.untracked_count != a.untracked_count,
            change(
                "git"@,
                "warning"@,
                "git.untracked_count"@,
                ValueView::Count(b.untracked_count),
                ValueView::Count(a.untracked_count),
                "Untracked file count changed"@,
            ),
        ) + if_change(
            b.ahead != a.ahead,
            change(
                "git"@,
                "info"@,
                "git.ahead"@,
                count_value(b.ahead),
                count_value(a.ahead),
                "Git ahead count changed"@,
            ),
        ) + if_change(
            b.behind != a.behind,
            change(
                "git"@,
                "warning"@,
                "git.behind"@,
                count_value(b.behind),
                count_value(a.behind),
                "Git behind count changed"@,
            ),
        ),
    }
}

// ---------------------------------------------------------------------------
// Keyed records
// ---------------------------------------------------------------------------

/// The position of the last occurrence of `k` in `keys`, `-1` if none: the
/// entry a `BTreeMap` collected from `keys` keeps.
pub open spec fn last_index_of(keys: Seq<Seq<Seq<char>>>, k: Seq<Seq<char>>) -> int
    decreases keys.len(),
{
    if keys.len() == 0 {
        -1
    } else if keys.last() == k {
        keys.len() - 1
    } else {
        last_index_of(keys.drop_last(), k)
    }
}

/// `last_index_of` finds the last occurrence of a key, and only misses a

/// key that is absent.

pub proof fn lemma_last_index_of(keys: Seq<Seq<Seq<char>>>, k: Seq<Seq<char>>)
    ensures
        keys.contains(k) ==> 0 <= last_index_of(keys, k) < keys.len() && keys[last_index_of(keys, k)] == k,
        !keys.contains(k) ==> last_index_of(keys, k) == -1,
        keys.contains(k) ==> forall|t: int| last_index_of(keys, k) < t < keys.len() ==> keys[t] != k,
    decreases keys.len(),
{
    if keys.len() > 0 {
        lemma_last_index_of(keys.drop_last(), k);
        if keys.last() != k {
            if keys.contains(k) {
                let i = choose|i: int| 0 <= i < keys.len() && keys[i] == k;
                assert(keys.drop_last()[i] == k);
                assert forall|t: int| last_index_of(keys, k) < t < keys.len() implies keys[t] != k by {
                    if t < keys.len() - 1 {
                        assert(keys[t] == keys.drop_last()[t]);
                    }
                }
            }
            if keys.drop_last().contains(k) {
                let i = choose|i: int| 0 <= i < keys.drop_last().len() && keys.drop_last()[i] == k;
                assert(keys[i] == k);
            }
        } else {
            assert(keys[keys.len() - 1] == k);
        }
    }
}

// ---------------------------------------------------------------------------
// Tools
// ---------------------------------------------------------------------------

pub open spec fn tool_keys(ts: Seq<ToolInfoView>) -> Seq<Seq<Seq<char>>> {
    ts.map_values(|t: ToolInfoView| key1(t.name))
}

pub open spec fn tool_value(t: ToolInfoView) -> ValueView {
    ValueView::Tool { available: t.available, version: t.version }
}

/// A tool in both scans: availability (a blocker when it went away) and
/// version changes.
pub open spec fn tool_pair_changes(b: ToolInfoView, c: ToolInfoView) -> Seq<ChangeView> {
    let name = b.name;
    if_change(
        b.available != c.available,
        change(
            "tool"@,
            if c.available { "info"@ } else { "blocker"@ },
            name + ".available"@,
            ValueView::Flag(b.available),
            ValueView::Flag(c.available),
            "Tool availability changed: "@ + name,
        ),
    ) + if_change(
        b.version != c.version,
        change(
            "tool"@,
            "warning"@,
            name + ".version"@,
            text_value(b.version),
            text_value(c.version),
            "Tool version changed: "@ + name,
        ),
    )
}

/// The changes of the baseline tool at position `i`.
pub open spec fn tool_before(base: Seq<ToolInfoView>, cur: Seq<ToolInfoView>, i: usize) -> Seq<ChangeView> {
    let k = tool_keys(base)[i as int];
    if tool_keys(cur).contains(k) {
        tool_pair_changes(base[i as int], cur[last_index_of(tool_keys(cur), k)])
    } else {
        seq![
            change(
                "tool"@,
                "warning"@,
                base[i as int].name,
                tool_value(base[i as int]),
                ValueView::Null,
                "Tool removed from scan: "@ + base[i as int].name,
            ),
        ]
    }
}

/// The change of the current tool at position `i`, if it is new.
pub open spec fn tool_added(base: Seq<ToolInfoView>, cur: Seq<ToolInfoView>, i: usize) -> Seq<ChangeView> {
    if_change(
        !tool_keys(base).contains(tool_keys(cur)[i as int]),
        change(
            "tool"@,
            "info"@,
            cur[i as int].name,
            ValueView::Null,
            tool_value(cur[i as int]),
            "Tool added to scan: "@ + cur[i as int].name,
        ),
    )
}

/// Tool changes: baseline tools by name, then new tools by name.
pub open spec fn tool_changes(base: Seq<ToolInfoView>, cur: Seq<ToolInfoView>) -> Seq<ChangeView> {
    concat_map(btree_order(tool_keys(base)), |i: usize| tool_before(base, cur, i))
        + concat_map(btree_order(tool_keys(cur)), |i: usize| tool_added(base, cur, i))
}

// ---------------------------------------------------------------------------
// Suite tools
// ---------------------------------------------------------------------------

pub open spec fn suite_keys(ts: Seq<SuiteToolInfoView>) -> Seq<Seq<Seq<char>>> {
    ts.map_values(|t: SuiteToolInfoView| key1(t.name))
}

/// A suite tool in both scans: installation and repository linkage changes,
/// warnings when lost and information when gained.
pub open spec fn suite_pair_changes(b: SuiteToolInfoView, c: SuiteToolInfoView) -> Seq<ChangeView> {
    let name = b.name;
    if_change(
        b.installed != c.installed,
        change(
            "suite_tool"@,
            if c.installed { "info"@ } else { "warning"@ },
            name + ".installed"@,
            ValueView::Flag(b.installed),
            ValueView::Flag(c.installed),
            "Suite tool installation changed: "@ + name,
        ),
    ) + if_change(
        b.initialized != c.initialized,
        change(
            "suite_tool"@,
            if c.initialized { "info"@ } else { "warning"@ },
            name + ".initialized"@,
            ValueView::Flag(b.initialized),
            ValueView::Flag(c.initialized),
            "Suite tool linkage changed: "@ + name,
        ),
    )
}

/// The changes of the baseline suite tool at position `i`, when the current
/// scan has it too.
pub open spec fn suite_before(base: Seq<SuiteToolInfoView>, cur: Seq<SuiteToolInfoView>, i: usize) -> Seq<ChangeView> {
    let k = suite_keys(base)[i as int];
    if suite_keys(cur).contains(k) {
        suite_pair_changes(base[i as int], cur[last_index_of(suite_keys(cur), k)])
    } else {
        Seq::empty()
    }
}

/// Suite tool changes, by name; a tool only one scan lists (as in a snapshot
/// from before suite tools were recorded) is not a change. The tools of each
/// scan are taken as a map from name to tool: where a name repeats, the last
/// entry with it stands for it, and the names are visited in key order.
pub open spec fn suite_changes(base: Seq<SuiteToolInfoView>, cur: Seq<SuiteToolInfoView>) -> Seq<ChangeView> {
    concat_map(btree_order(suite_keys(base)), |i: usize| suite_before(base, cur, i))
}

// ---------------------------------------------------------------------------
// Lockfiles
// ---------------------------------------------------------------------------

pub open spec fn lockfile_keys(ls: Seq<LockfileInfoView>) -> Seq<Seq<Seq<char>>> {
    ls.map_values(|l: LockfileInfoView| key1(l.path))
}

pub open spec fn lockfile_value(l: LockfileInfoView) -> ValueView {
    ValueView::Lockfile { hash: l.hash, stale: l.stale }
}

/// A lockfile in both scans: hash and staleness changes.
pub open spec fn lockfile_pair_changes(b: LockfileInfoView, c: LockfileInfoView) -> Seq<ChangeView> {
    let path = b.path;
    if_change(
        b.hash != c.hash,
        change(
            "lockfile"@,
            "warning"@,
            path + ".hash"@,
            ValueView::Text(b.hash),
            ValueView::Text(c.hash),
            "Lockfile hash changed: "@ + path,
        ),
    ) + if_change(
        b.stale != c.stale,
        change(
            "lockfile"@,
            "warning"@,
            path + ".stale"@,
            ValueView::Flag(b.stale),
            ValueView::Flag(c.stale),
            "Lockfile stale state changed: "@ + path,
        ),
    )
}

pub open spec fn lockfile_before(base: Seq<LockfileInfoView>, cur: Seq<LockfileInfoView>, i: usize) -> Seq<ChangeView> {
    let k = lockfile_keys(base)[i as int];
    if lockfile_keys(cur).contains(k) {
        lockfile_pair_changes(base[i as int], cur[last_index_of(lockfile_keys(cur), k)])
    } else {
        seq![
            change(
                "lockfile"@,
                "warning"@,
                base[i as int].path,
                lockfile_value(base[i as int]),
                ValueView::Null,
                "Lockfile removed: "@ + base[i as int].path,
            ),
        ]
    }
}

pub open spec fn lockfile_added(base: Seq<LockfileInfoView>, cur: Seq<LockfileInfoView>, i: usize) -> Seq<ChangeView> {
    if_change(
        !lockfile_keys(base).contains(lockfile_keys(cur)[i as int]),
        change(
            "lockfile"@,
            "warning"@,
            cur[i as int].path,
            ValueView::Null,
            lockfile_value(cur[i as int]),
            "Lockfile added: "@ + cur[i as int].path,
        ),
    )
}

/// Lockfile changes: baseline lockfiles by path, then new ones by path.
pub open spec fn lockfile_changes(base: Seq<LockfileInfoView>, cur: Seq<LockfileInfoView>) -> Seq<ChangeView> {
    concat_map(btree_order(lockfile_keys(base)), |i: usize| lockfile_before(base, cur, i))
        + concat_map(btree_order(lockfile_keys(cur)), |i: usize| lockfile_added(base, cur, i))
}

// ---------------------------------------------------------------------------
// Suggested commands
// ---------------------------------------------------------------------------

/// What identifies a suggested command across scans.
pub open spec fn command_key(c: SuggestedCommandView) -> Seq<char> {
    c.action + ":"@ + c.command
}

pub open spec fn command_keys(cs: Seq<SuggestedCommandView>) -> Seq<Seq<Seq<char>>> {
    cs.map_values(|c: SuggestedCommandView| key1(command_key(c)))
}

pub open spec fn command_value(c: SuggestedCommandView) -> ValueView {
    ValueView::Command { action: c.action, command: c.command, confidence: c.confidence }
}

pub open spec fn command_removed(base: Seq<SuggestedCommandView>, cur: Seq<SuggestedCommandView>, i: usize) -> Seq<ChangeView> {
    if_change(
        !command_keys(cur).contains(command_keys(base)[i as int]),
        change(
            "command"@,
            "info"@,
            command_key(base[i as int]),
            command_value(base[i as int]),
            ValueView::Null,
            "Suggested command removed: "@ + base[i as int].command,
        ),
    )
}

pub open spec fn command_added(base: Seq<SuggestedCommandView>, cur: Seq<SuggestedCommandView>, i: usize) -> Seq<ChangeView> {
    if_change(
        !command_keys(base).contains(command_keys(cur)[i as int]),
        change(
            "command"@,
            "info"@,
            command_key(cur[i as int]),
            ValueView::Null,
            command_value(cur[i as int]),
            "Suggested command added: "@ + cur[i as int].command,
        ),
    )
}

/// Suggested commands removed, then added, each in key order.
pub open spec fn command_changes(base: Seq<SuggestedCommandView>, cur: Seq<SuggestedCommandView>) -> Seq<ChangeView> {
    concat_map(btree_order(command_keys(base)), |i: usize| command_removed(base, cur, i))
        + concat_map(btree_order(command_keys(cur)), |i: usize| command_added(base, cur, i))
}

// ---------------------------------------------------------------------------
// The whole diff
// ---------------------------------------------------------------------------

/// All changes from `base` to `cur`, in the order projects, git, tools,
/// suite tools, lockfiles, commands.
pub open spec fn changes_between(cur: ScanView, base: ScanView) -> Seq<ChangeView> {
    project_changes(base.projects, cur.projects) + git_changes(base.git, cur.git) + tool_changes(
        base.tools,
        cur.tools,
    ) + suite_changes(base.suite_tools, cur.suite_tools) + lockfile_changes(base.lockfiles, cur.lockfiles)
        + command_changes(base.suggested_commands, cur.suggested_commands)
}

/// How many changes have this severity.
pub open spec fn severity_count(cs: Seq<ChangeView>, severity: Seq<char>) -> nat
    decreases cs.len(),
{
    if cs.len() == 0 {
        0
    } else {
        severity_count(cs.drop_last(), severity) + if cs.last().severity == severity {
            1nat
        } else {
            0nat
        }
    }
}

// ---------------------------------------------------------------------------
// Executable parts
// ---------------------------------------------------------------------------

fn key_of(s: &str) -> (r: Vec<Vec<char>>)
    ensures
        r.deep_view() == key1(s@),
{
    let c = chars_of(s);
    proof {
        lemma_char_deep_view(c);
    }
    let mut r: Vec<Vec<char>> = Vec::new();
    r.push(c);
    assert(r.deep_view() =~= key1(s@));
    r
}

fn push_key(keys: &mut Vec<Vec<Vec<char>>>, k: Vec<Vec<char>>)
    ensures
        final(keys).deep_view() == old(keys).deep_view().push(k.deep_view()),
{
    let ghost k0 = keys.deep_view();
    let ghost kv = k.deep_view();
    keys.push(k);
    assert(keys.deep_view() =~= k0.push(kv));
}

/// Is `k` among `keys`?
fn has_key(keys: &Vec<Vec<Vec<char>>>, k: &Vec<Vec<char>>) -> (r: bool)
    ensures
        r == keys.deep_view().contains(k.deep_view()),
{
    let mut i: usize = 0;
    while i < keys.len()
        invariant
            i <= keys@.len(),
            forall|j: int| 0 <= j < i ==> keys.deep_view()[j] != k.deep_view(),
        decreases keys@.len() - i,
    {
        if tuple_eq_exec(&keys[i], k) {
            assert(keys.deep_view()[i as int] == k.deep_view());
            return true;
        }
        i += 1;
    }
    false
}

/// The last position of `k` among `keys`.
fn last_index(keys: &Vec<Vec<Vec<char>>>, k: &Vec<Vec<char>>) -> (r: usize)
    requires
        keys.deep_view().contains(k.deep_view()),
    ensures
        r as int == last_index_of(keys.deep_view(), k.deep_view()),
        r < keys@.len(),
{
    proof {
        lemma_last_index_of(keys.deep_view(), k.deep_view());
    }
    let ghost kv = keys.deep_view();
    let mut i: usize = keys.len();
    assert(kv.take(kv.len() as int) =~= kv);
    while i > 0
        invariant
            kv == keys.deep_view(),
            i <= kv.len(),
            kv.contains(k.deep_view()),
            last_index_of(kv, k.deep_view()) == last_index_of(kv.take(i as int), k.deep_view()),
        decreases i,
    {
        assert(kv.take(i as int).drop_last() =~= kv.take(i - 1));
        if tuple_eq_exec(&keys[i - 1], k) {
            assert(kv.take(i as int).last() == k.deep_view());
            return i - 1;
        }
        i -= 1;
    }
    assert(kv.take(0).len() == 0);
    proof {
        lemma_last_index_of(kv, k.deep_view());
    }
    0
}

fn make_change(
    kind: &str,
    severity: &str,
    field: Vec<char>,
    before: DiffValue,
    after: DiffValue,
    message: Vec<char>,
) -> (r: DiffChange)
    ensures
        r@ == change(kind@, severity@, field@, before@, after@, message@),
{
    DiffChange {
        kind: lit(kind),
        severity: lit(severity),
        field: string_of(field.as_slice()),
        before,
        after,
        message: string_of(message.as_slice()),
    }
}

fn cat2(a: &str, b: &str) -> (r: Vec<char>)
    ensures
        r@ == a@ + b@,
{
    let mut v = chars_of(a);
    extend_str(&mut v, b);
    v
}

fn text_of(s: &String) -> (r: DiffValue)
    ensures
        r@ == ValueView::Text(s@),
{
    DiffValue::Text(s.clone())
}

fn opt_text_value(o: &Option<String>) -> (r: DiffValue)
    ensures
        r@ == text_value(o.deep_view()),
{
    match o {
        Some(s) => DiffValue::Text(s.clone()),
        None => DiffValue::Null,
    }
}

fn opt_count_value(o: Option<usize>) -> (r: DiffValue)
    ensures
        r@ == count_value(opt_nat(o)),
{
    match o {
        Some(n) => DiffValue::Count(n),
        None => DiffValue::Null,
    }
}

fn push_change(v: &mut Vec<DiffChange>, c: DiffChange)
    ensures
        final(v).deep_view() == old(v).deep_view().push(c@),
{
    let ghost v0 = v.deep_view();
    let ghost cv = c@;
    v.push(c);
    assert(v.deep_view() =~= v0.push(cv));
}

fn append_changes(a: &mut Vec<DiffChange>, b: Vec<DiffChange>)
    ensures
        final(a).deep_view() == old(a).deep_view() + b.deep_view(),
{
    let ghost a0 = a.deep_view();
    let mut b = b;
    let ghost bv = b.deep_view();
    a.append(&mut b);
    assert(a.deep_view() =~= a0 + bv);
}

fn project_label_exec(p: &DetectedProject) -> (r: Vec<char>)
    ensures
        r@ == project_label(p@),
{
    let mut v = chars_of(p.kind.as_str());
    extend_str(&mut v, " at ");
    extend_str(&mut v, p.root.as_str());
    extend_str(&mut v, " (");
    extend_str(&mut v, p.manifest.as_str());
    extend_str(&mut v, ")");
    v
}

fn project_keys_exec(ps: &Vec<DetectedProject>) -> (r: Vec<Vec<Vec<char>>>)
    ensures
        r.deep_view() == project_keys(ps.deep_view()),
{
    let ghost pv = ps.deep_view();
    let mut r: Vec<Vec<Vec<char>>> = Vec::new();
    let mut i: usize = 0;
    while i < ps.len()
        invariant
            pv == ps.deep_view(),
            i <= pv.len(),
            r.deep_view() == project_keys(pv.take(i as int)),
        decreases pv.len() - i,
    {
        let mut k = chars_of(ps[i].kind.as_str());
        extend_str(&mut k, ":");
        extend_str(&mut k, ps[i].root.as_str());
        extend_str(&mut k, ":");
        extend_str(&mut k, ps[i].manifest.as_str());
        let key = key_of(string_of(k.as_slice()).as_str());
        push_key(&mut r, key);
        assert(project_keys(pv.take(i + 1)) =~= project_keys(pv.take(i as int)).push(key1(project_key(pv[i as int]))));
        i += 1;
    }
    assert(pv.take(pv.len() as int) =~= pv);
    r
}

/// Projects removed, then added.
pub fn diff_projects(current: &Vec<DetectedProject>, baseline: &Vec<DetectedProject>) -> (r: Vec<DiffChange>)
    ensures
        r.deep_view() == project_changes(baseline.deep_view(), current.deep_view()),
{
    let ghost bv = baseline.deep_view();
    let ghost cv = current.deep_view();
    let bk = project_keys_exec(baseline);
    let ck = project_keys_exec(current);
    let mut out: Vec<DiffChange> = Vec::new();

    let order = last_key_order(&bk);
    let ghost f = |i: usize| project_removed(bv, cv, i);
    let mut m: usize = 0;
    while m < order.len()
        invariant
            bv == baseline.deep_view(),
            cv == current.deep_view(),
            bk.deep_view() == project_keys(bv),
            ck.deep_view() == project_keys(cv),
            is_last_key_order(bk.deep_view(), order@),
            f == (|i: usize| project_removed(bv, cv, i)),
            m <= order@.len(),
            out.deep_view() == concat_map(order@.take(m as int), f),
        decreases order@.len() - m,
    {
        assert(order@.take(m + 1).drop_last() =~= order@.take(m as int));
        let i = order[m];
        assert(i < bk@.len());
        if !has_key(&ck, &bk[i]) {
            let label = project_label_exec(&baseline[i]);
            let msg = {
                let mut v = chars_of("Project removed: ");
                extend_chars(&mut v, label.as_slice());
                v
            };
            let before = DiffValue::Text(string_of(label.as_slice()));
            let ghost o0 = out.deep_view();
            push_change(&mut out, make_change("project", "warning", chars_of("projects"), before, DiffValue::Null, msg));
            assert(out.deep_view() =~= o0 + f(i));
        } else {
            assert(f(i) =~= Seq::<ChangeView>::empty());
            assert(out.deep_view() =~= out.deep_view() + f(i));
        }
        m += 1;
    }
    assert(order@.take(order@.len() as int) =~= order@);
    let ghost part1 = out.deep_view();

    let order2 = last_key_order(&ck);
    let ghost g = |i: usize| project_added(bv, cv, i);
    let mut added: Vec<DiffChange> = Vec::new();
    let mut m: usize = 0;
    while m < order2.len()
        invariant
            bv == baseline.deep_view(),
            cv == current.deep_view(),
            bk.deep_view() == project_keys(bv),
            ck.deep_view() == project_keys(cv),
            is_last_key_order(ck.deep_view(), order2@),
            g == (|i: usize| project_added(bv, cv, i)),
            m <= order2@.len(),
            added.deep_view() == concat_map(order2@.take(m as int), g),
        decreases order2@.len() - m,
    {
        assert(order2@.take(m + 1).drop_last() =~= order2@.take(m as int));
        let i = order2[m];
        assert(i < ck@.len());
        if !has_key(&bk, &ck[i]) {
            let label = project_label_exec(&current[i]);
            let msg = {
                let mut v = chars_of("Project added: ");
                extend_chars(&mut v, label.as_slice());
                v
            };
            let after = DiffValue::Text(string_of(label.as_slice()));
            let ghost o0 = added.deep_view();
            push_change(&mut added, make_change("project", "warning", chars_of("projects"), DiffValue::Null, after, msg));
            assert(added.deep_view() =~= o0 + g(i));
        } else {
            assert(g(i) =~= Seq::<ChangeView>::empty());
            assert(added.deep_view() =~= added.deep_view() + g(i));
        }
        m += 1;
    }
    assert(order2@.take(order2@.len() as int) =~= order2@);
    append_changes(&mut out, added);
    out
}


fn push_if(v: &mut Vec<DiffChange>, b: bool, c: DiffChange)
    ensures
        final(v).deep_view() == old(v).deep_view() + if_change(b, c@),
{
    let ghost v0 = v.deep_view();
    if b {
        push_change(v, c);
        assert(v.deep_view() =~= v0 + if_change(b, c@));
    } else {
        assert(v0 + if_change(b, c@) =~= v0);
    }
}

fn opt_usize_eq(a: Option<usize>, b: Option<usize>) -> (r: bool)
    ensures
        r == (opt_nat(a) == opt_nat(b)),
{
    match (a, b) {
        (Some(x), Some(y)) => x == y,
        (None, None) => true,
        _ => false,
    }
}

fn opt_str_eq(a: &Option<String>, b: &Option<String>) -> (r: bool)
    ensures
        r == (a.deep_view() == b.deep_view()),
{
    match (a, b) {
        (Some(x), Some(y)) => str_eq(x.as_str(), y.as_str()),
        (None, None) => true,
        _ => false,
    }
}

fn git_ref_exec(g: &GitState) -> (r: DiffValue)
    ensures
        r@ == git_ref(g@),
{
    DiffValue::GitRef { branch: g.branch.clone(), head_sha: g.head_sha.clone() }
}

fn git_pair_changes(b: &GitState, a: &GitState) -> (r: Vec<DiffChange>)
    ensures
        r.deep_view() == git_changes(Some(b@), Some(a@)),
{
    let mut out: Vec<DiffChange> = Vec::new();
    push_if(
        &mut out,
        !str_eq(b.branch.as_str(), a.branch.as_str()),
        make_change(
            "git",
            "warning",
            chars_of("git.branch"),
            text_of(&b.branch),
            text_of(&a.branch),
            chars_of("Git branch changed"),
        ),
    );
    push_if(
        &mut out,
        !str_eq(b.head_sha.as_str(), a.head_sha.as_str()),
        make_change(
            "git",
            "info",
            chars_of("git.head_sha"),
            text_of(&b.head_sha),
            text_of(&a.head_sha),
            chars_of("Git HEAD changed"),
        ),
    );
    push_if(
        &mut out,
        b.dirty_count != a.dirty_count,
        make_change(
            "git",
            "warning",
            chars_of("git.dirty_count"),
            DiffValue::Count(b.dirty_count),
            DiffValue::Count(a.dirty_count),
            chars_of("Dirty file count changed"),
        ),
    );
    push_if(
        &mut out,
        b.untracked_count != a.untracked_count,
        make_change(
            "git",
            "warning",
            chars_of("git.untracked_count"),
            DiffValue::Count(b.untracked_count),
            DiffValue::Count(a.untracked_count),
            chars_of("Untracked file count changed"),
        ),
    );
    push_if(
        &mut out,
        !opt_usize_eq(b.ahead, a.ahead),
        make_change(
            "git",
            "info",
            chars_of("git.ahead"),
            opt_count_value(b.ahead),
            opt_count_value(a.ahead),
            chars_of("Git ahead count changed"),
        ),
    );
    push_if(
        &mut out,
        !opt_usize_eq(b.behind, a.behind),
        make_change(
            "git",
            "warning",
            chars_of("git.behind"),
            opt_count_value(b.behind),
            opt_count_value(a.behind),
            chars_of("Git behind count changed"),
        ),
    );
    assert(out.deep_view() =~= git_changes(Some(b@), Some(a@)));
    out
}

/// Git appearing, disappearing or changing.
pub fn diff_git(current: &Option<GitState>, baseline: &Option<GitState>) -> (r: Vec<DiffChange>)
    ensures
        r.deep_view() == git_changes(baseline.deep_view(), current.deep_view()),
{
    match baseline {
        None => match current {
            None => {
                let r: Vec<DiffChange> = Vec::new();
                assert(r.deep_view() =~= git_changes(baseline.deep_view(), current.deep_view()));
                r
            },
            Some(g) => {
                let mut r: Vec<DiffChange> = Vec::new();
                push_change(
                    &mut r,
                    make_change(
                        "git",
                        "info",
                        chars_of("git"),
                        DiffValue::Null,
                        git_ref_exec(g),
                        chars_of("Git repository detected"),
                    ),
                );
                assert(r.deep_view() =~= git_changes(baseline.deep_view(), current.deep_view()));
                r
            },
        },
        Some(b) => match current {
            None => {
                let mut r: Vec<DiffChange> = Vec::new();
                push_change(
                    &mut r,
                    make_change(
                        "git",
                        "warning",
                        chars_of("git"),
                        git_ref_exec(b),
                        DiffValue::Null,
                        chars_of("Git repository no longer detected"),
                    ),
                );
                assert(r.deep_view() =~= git_changes(baseline.deep_view(), current.deep_view()));
                r
            },
            Some(a) => git_pair_changes(b, a),
        },
    }
}

fn tool_keys_exec(ts: &Vec<ToolInfo>) -> (r: Vec<Vec<Vec<char>>>)
    ensures
        r.deep_view() == tool_keys(ts.deep_view()),
{
    let ghost tv = ts.deep_view();
    let mut r: Vec<Vec<Vec<char>>> = Vec::new();
    let mut i: usize = 0;
    while i < ts.len()
        invariant
            tv == ts.deep_view(),
            i <= tv.len(),
            r.deep_view() == tool_keys(tv.take(i as int)),
        decreases tv.len() - i,
    {
        let key = key_of(ts[i].name.as_str());
        push_key(&mut r, key);
        assert(tool_keys(tv.take(i + 1)) =~= tool_keys(tv.take(i as int)).push(key1(tv[i as int].name)));
        i += 1;
    }
    assert(tv.take(tv.len() as int) =~= tv);
    r
}

fn tool_value_exec(t: &ToolInfo) -> (r: DiffValue)
    ensures
        r@ == tool_value(t@),
{
    DiffValue::Tool { available: t.available, version: opt_string_copy(&t.version) }
}

fn tool_pair_exec(b: &ToolInfo, c: &ToolInfo) -> (r: Vec<DiffChange>)
    ensures
        r.deep_view() == tool_pair_changes(b@, c@),
{
    let mut out: Vec<DiffChange> = Vec::new();
    let severity = if c.available {
        "info"
    } else {
        "blocker"
    };
    push_if(
        &mut out,
        b.available != c.available,
        make_change(
            "tool",
            severity,
            cat2(b.name.as_str(), ".available"),
            DiffValue::Flag(b.available),
            DiffValue::Flag(c.available),
            cat2("Tool availability changed: ", b.name.as_str()),
        ),
    );
    push_if(
        &mut out,
        !opt_str_eq(&b.version, &c.version),
        make_change(
            "tool",
            "warning",
            cat2(b.name.as_str(), ".version"),
            opt_text_value(&b.version),
            opt_text_value(&c.version),
            cat2("Tool version changed: ", b.name.as_str()),
        ),
    );
    assert(out.deep_view() =~= tool_pair_changes(b@, c@));
    out
}

/// Tool availability and version changes, tools gone and tools new.
pub fn diff_tools(current: &Vec<ToolInfo>, baseline: &Vec<ToolInfo>) -> (r: Vec<DiffChange>)
    ensures
        r.deep_view() == tool_changes(baseline.deep_view(), current.deep_view()),
{
    let ghost bv = baseline.deep_view();
    let ghost cv = current.deep_view();
    let bk = tool_keys_exec(baseline);
    let ck = tool_keys_exec(current);
    let mut out: Vec<DiffChange> = Vec::new();

    let order = last_key_order(&bk);
    let ghost f = |i: usize| tool_before(bv, cv, i);
    let mut m: usize = 0;
    while m < order.len()
        invariant
            bv == baseline.deep_view(),
            cv == current.deep_view(),
            bk.deep_view() == tool_keys(bv),
            ck.deep_view() == tool_keys(cv),
            is_last_key_order(bk.deep_view(), order@),
            f == (|i: usize| tool_before(bv, cv, i)),
            m <= order@.len(),
            out.deep_view() == concat_map(order@.take(m as int), f),
        decreases order@.len() - m,
    {
        assert(order@.take(m + 1).drop_last() =~= order@.take(m as int));
        let i = order[m];
        assert(i < bk@.len());
        let ghost o0 = out.deep_view();
        if has_key(&ck, &bk[i]) {
            let j = last_index(&ck, &bk[i]);
            let pc = tool_pair_exec(&baseline[i], &current[j]);
            append_changes(&mut out, pc);
        } else {
            let name = &baseline[i].name;
            push_change(
                &mut out,
                make_change(
                    "tool",
                    "warning",
                    chars_of(name.as_str()),
                    tool_value_exec(&baseline[i]),
                    DiffValue::Null,
                    cat2("Tool removed from scan: ", name.as_str()),
                ),
            );
        }
        assert(out.deep_view() =~= o0 + f(i));
        m += 1;
    }
    assert(order@.take(order@.len() as int) =~= order@);

    let order2 = last_key_order(&ck);
    let ghost g = |i: usize| tool_added(bv, cv, i);
    let mut added: Vec<DiffChange> = Vec::new();
    let mut m: usize = 0;
    while m < order2.len()
        invariant
            bv == baseline.deep_view(),
            cv == current.deep_view(),
            bk.deep_view() == tool_keys(bv),
            ck.deep_view() == tool_keys(cv),
            is_last_key_order(ck.deep_view(), order2@),
            g == (|i: usize| tool_added(bv, cv, i)),
            m <= order2@.len(),
            added.deep_view() == concat_map(order2@.take(m as int), g),
        decreases order2@.len() - m,
    {
        assert(order2@.take(m + 1).drop_last() =~= order2@.take(m as int));
        let i = order2[m];
        assert(i < ck@.len());
        let ghost o0 = added.deep_view();
        let name = &current[i].name;
        push_if(
            &mut added,
            !has_key(&bk, &ck[i]),
            make_change(
                "tool",
                "info",
                chars_of(name.as_str()),
                DiffValue::Null,
                tool_value_exec(&current[i]),
                cat2("Tool added to scan: ", name.as_str()),
            ),
        );
        assert(added.deep_view() =~= o0 + g(i));
        m += 1;
    }
    assert(order2@.take(order2@.len() as int) =~= order2@);
    append_changes(&mut out, added);
    out
}

fn suite_keys_exec(ts: &Vec<SuiteToolInfo>) -> (r: Vec<Vec<Vec<char>>>)
    ensures
        r.deep_view() == suite_keys(ts.deep_view()),
{
    let ghost tv = ts.deep_view();
    let mut r: Vec<Vec<Vec<char>>> = Vec::new();
    let mut i: usize = 0;
    while i < ts.len()
        invariant
            tv == ts.deep_view(),
            i <= tv.len(),
            r.deep_view() == suite_keys(tv.take(i as int)),
        decreases tv.len() - i,
    {
        let key = key_of(ts[i].name.as_str());
        push_key(&mut r, key);
        assert(suite_keys(tv.take(i + 1)) =~= suite_keys(tv.take(i as int)).push(key1(tv[i as int].name)));
        i += 1;
    }
    assert(tv.take(tv.len() as int) =~= tv);
    r
}

fn suite_pair_exec(b: &SuiteToolInfo, c: &SuiteToolInfo) -> (r: Vec<DiffChange>)
    ensures
        r.deep_view() == suite_pair_changes(b@, c@),
{
    let mut out: Vec<DiffChange> = Vec::new();
    let s1 = if c.installed {
        "info"
    } else {
        "warning"
    };
    push_if(
        &mut out,
        b.installed != c.installed,
        make_change(
            "suite_tool",
            s1,
            cat2(b.name.as_str(), ".installed"),
            DiffValue::Flag(b.installed),
            DiffValue::Flag(c.installed),
            cat2("Suite tool installation changed: ", b.name.as_str()),
        ),
    );
    let s2 = if c.initialized {
        "info"
    } else {
        "warning"
    };
    push_if(
        &mut out,
        b.initialized != c.initialized,
        make_change(
            "suite_tool",
            s2,
            cat2(b.name.as_str(), ".initialized"),
            DiffValue::Flag(b.initialized),
            DiffValue::Flag(c.initialized),
            cat2("Suite tool linkage changed: ", b.name.as_str()),
        ),
    );
    assert(out.deep_view() =~= suite_pair_changes(b@, c@));
    out
}

/// Suite tools whose installation or repository linkage changed.
pub fn diff_suite_tools(current: &Vec<SuiteToolInfo>, baseline: &Vec<SuiteToolInfo>) -> (r: Vec<
    DiffChange,
>)
    ensures
        r.deep_view() == suite_changes(baseline.deep_view(), current.deep_view()),
{
    let ghost bv = baseline.deep_view();
    let ghost cv = current.deep_view();
    let bk = suite_keys_exec(baseline);
    let ck = suite_keys_exec(current);
    let mut out: Vec<DiffChange> = Vec::new();

    let order = last_key_order(&bk);
    let ghost f = |i: usize| suite_before(bv, cv, i);
    let mut m: usize = 0;
    while m < order.len()
        invariant
            bv == baseline.deep_view(),
            cv == current.deep_view(),
            bk.deep_view() == suite_keys(bv),
            ck.deep_view() == suite_keys(cv),
            is_last_key_order(bk.deep_view(), order@),
            f == (|i: usize| suite_before(bv, cv, i)),
            m <= order@.len(),
            out.deep_view() == concat_map(order@.take(m as int), f),
        decreases order@.len() - m,
    {
        assert(order@.take(m + 1).drop_last() =~= order@.take(m as int));
        let i = order[m];
        assert(i < bk@.len());
        let ghost o0 = out.deep_view();
        if has_key(&ck, &bk[i]) {
            let j = last_index(&ck, &bk[i]);
            let pc = suite_pair_exec(&baseline[i], &current[j]);
            append_changes(&mut out, pc);
        }
        assert(out.deep_view() =~= o0 + f(i));
        m += 1;
    }
    assert(order@.take(order@.len() as int) =~= order@);
    out
}

fn lockfile_keys_exec(ls: &Vec<LockfileInfo>) -> (r: Vec<Vec<Vec<char>>>)
    ensures
        r.deep_view() == lockfile_keys(ls.deep_view()),
{
    let ghost lv = ls.deep_view();
    let mut r: Vec<Vec<Vec<char>>> = Vec::new();
    let mut i: usize = 0;
    while i < ls.len()
        invariant
            lv == ls.deep_view(),
            i <= lv.len(),
            r.deep_view() == lockfile_keys(lv.take(i as int)),
        decreases lv.len() - i,
    {
        let key = key_of(ls[i].path.as_str());
        push_key(&mut r, key);
        assert(lockfile_keys(lv.take(i + 1)) =~= lockfile_keys(lv.take(i as int)).push(key1(lv[i as int].path)));
        i += 1;
    }
    assert(lv.take(lv.len() as int) =~= lv);
    r
}

fn lockfile_value_exec(l: &LockfileInfo) -> (r: DiffValue)
    ensures
        r@ == lockfile_value(l@),
{
    DiffValue::Lockfile { hash: l.hash.clone(), stale: l.stale }
}

fn lockfile_pair_exec(b: &LockfileInfo, c: &LockfileInfo) -> (r: Vec<DiffChange>)
    ensures
        r.deep_view() == lockfile_pair_changes(b@, c@),
{
    let mut out: Vec<DiffChange> = Vec::new();
    push_if(
        &mut out,
        !str_eq(b.hash.as_str(), c.hash.as_str()),
        make_change(
            "lockfile",
            "warning",
            cat2(b.path.as_str(), ".hash"),
            text_of(&b.hash),
            text_of(&c.hash),
            cat2("Lockfile hash changed: ", b.path.as_str()),
        ),
    );
    push_if(
        &mut out,
        b.stale != c.stale,
        make_change(
            "lockfile",
            "warning",
            cat2(b.path.as_str(), ".stale"),
            DiffValue::Flag(b.stale),
            DiffValue::Flag(c.stale),
            cat2("Lockfile stale state changed: ", b.path.as_str()),
        ),
    );
    assert(out.deep_view() =~= lockfile_pair_changes(b@, c@));
    out
}

/// Lockfile hash and staleness changes, lockfiles gone and new.
pub fn diff_lockfiles(current: &Vec<LockfileInfo>, baseline: &Vec<LockfileInfo>) -> (r: Vec<
    DiffChange,
>)
    ensures
        r.deep_view() == lockfile_changes(baseline.deep_view(), current.deep_view()),
{
    let ghost bv = baseline.deep_view();
    let ghost cv = current.deep_view();
    let bk = lockfile_keys_exec(baseline);
    let ck = lockfile_keys_exec(current);
    let mut out: Vec<DiffChange> = Vec::new();

    let order = last_key_order(&bk);
    let ghost f = |i: usize| lockfile_before(bv, cv, i);
    let mut m: usize = 0;
    while m < order.len()
        invariant
            bv == baseline.deep_view(),
            cv == current.deep_view(),
            bk.deep_view() == lockfile_keys(bv),
            ck.deep_view() == lockfile_keys(cv),
            is_last_key_order(bk.deep_view(), order@),
            f == (|i: usize| lockfile_before(bv, cv, i)),
            m <= order@.len(),
            out.deep_view() == concat_map(order@.take(m as int), f),
        decreases order@.len() - m,
    {
        assert(order@.take(m + 1).drop_last() =~= order@.take(m as int));
        let i = order[m];
        assert(i < bk@.len());
        let ghost o0 = out.deep_view();
        if has_key(&ck, &bk[i]) {
            let j = last_index(&ck, &bk[i]);
            let pc = lockfile_pair_exec(&baseline[i], &current[j]);
            append_changes(&mut out, pc);
        } else {
            let path = &baseline[i].path;
            push_change(
                &mut out,
                make_change(
                    "lockfile",
                    "warning",
                    chars_of(path.as_str()),
                    lockfile_value_exec(&baseline[i]),
                    DiffValue::Null,
                    cat2("Lockfile removed: ", path.as_str()),
                ),
            );
        }
        assert(out.deep_view() =~= o0 + f(i));
        m += 1;
    }
    assert(order@.take(order@.len() as int) =~= order@);

    let order2 = last_key_order(&ck);
    let ghost g = |i: usize| lockfile_added(bv, cv, i);
    let mut added: Vec<DiffChange> = Vec::new();
    let mut m: usize = 0;
    while m < order2.len()
        invariant
            bv == baseline.deep_view(),
            cv == current.deep_view(),
            bk.deep_view() == lockfile_keys(bv),
            ck.deep_view() == lockfile_keys(cv),
            is_last_key_order(ck.deep_view(), order2@),
            g == (|i: usize| lockfile_added(bv, cv, i)),
            m <= order2@.len(),
            added.deep_view() == concat_map(order2@.take(m as int), g),
        decreases order2@.len() - m,
    {
        assert(order2@.take(m + 1).drop_last() =~= order2@.take(m as int));
        let i = order2[m];
        assert(i < ck@.len());
        let ghost o0 = added.deep_view();
        let path = &current[i].path;
        push_if(
            &mut added,
            !has_key(&bk, &ck[i]),
            make_change(
                "lockfile",
                "warning",
                chars_of(path.as_str()),
                DiffValue::Null,
                lockfile_value_exec(&current[i]),
                cat2("Lockfile added: ", path.as_str()),
            ),
        );
        assert(added.deep_view() =~= o0 + g(i));
        m += 1;
    }
    assert(order2@.take(order2@.len() as int) =~= order2@);
    append_changes(&mut out, added);
    out
}

fn command_key_exec(c: &SuggestedCommand) -> (r: Vec<char>)
    ensures
        r@ == command_key(c@),
{
    let mut k = chars_of(c.action.as_str());
    extend_str(&mut k, ":");
    extend_str(&mut k, c.command.as_str());
    k
}

fn command_keys_exec(cs: &Vec<SuggestedCommand>) -> (r: Vec<Vec<Vec<char>>>)
    ensures
        r.deep_view() == command_keys(cs.deep_view()),
{
    let ghost cv = cs.deep_view();
    let mut r: Vec<Vec<Vec<char>>> = Vec::new();
    let mut i: usize = 0;
    while i < cs.len()
        invariant
            cv == cs.deep_view(),
            i <= cv.len(),
            r.deep_view() == command_keys(cv.take(i as int)),
        decreases cv.len() - i,
    {
        let k = command_key_exec(&cs[i]);
        let key = key_of(string_of(k.as_slice()).as_str());
        push_key(&mut r, key);
        assert(command_keys(cv.take(i + 1)) =~= command_keys(cv.take(i as int)).push(key1(command_key(cv[i as int]))));
        i += 1;
    }
    assert(cv.take(cv.len() as int) =~= cv);
    r
}

fn command_value_exec(c: &SuggestedCommand) -> (r: DiffValue)
    ensures
        r@ == command_value(c@),
{
    DiffValue::Command {
        action: c.action.clone(),
        command: c.command.clone(),
        confidence: c.confidence.clone(),
    }
}

/// Suggested commands removed, then added.
pub fn diff_commands(current: &Vec<SuggestedCommand>, baseline: &Vec<SuggestedCommand>) -> (r: Vec<
    DiffChange,
>)
    ensures
        r.deep_view() == command_changes(baseline.deep_view(), current.deep_view()),
{
    let ghost bv = baseline.deep_view();
    let ghost cv = current.deep_view();
    let bk = command_keys_exec(baseline);
    let ck = command_keys_exec(current);
    let mut out: Vec<DiffChange> = Vec::new();

    let order = last_key_order(&bk);
    let ghost f = |i: usize| command_removed(bv, cv, i);
    let mut m: usize = 0;
    while m < order.len()
        invariant
            bv == baseline.deep_view(),
            cv == current.deep_view(),
            bk.deep_view() == command_keys(bv),
            ck.deep_view() == command_keys(cv),
            is_last_key_order(bk.deep_view(), order@),
            f == (|i: usize| command_removed(bv, cv, i)),
            m <= order@.len(),
            out.deep_view() == concat_map(order@.take(m as int), f),
        decreases order@.len() - m,
    {
        assert(order@.take(m + 1).drop_last() =~= order@.take(m as int));
        let i = order[m];
        assert(i < bk@.len());
        let ghost o0 = out.deep_view();
        push_if(
            &mut out,
            !has_key(&ck, &bk[i]),
            make_change(
                "command",
                "info",
                command_key_exec(&baseline[i]),
                command_value_exec(&baseline[i]),
                DiffValue::Null,
                cat2("Suggested command removed: ", baseline[i].command.as_str()),
            ),
        );
        assert(out.deep_view() =~= o0 + f(i));
        m += 1;
    }
    assert(order@.take(order@.len() as int) =~= order@);

    let order2 = last_key_order(&ck);
    let ghost g = |i: usize| command_added(bv, cv, i);
    let mut added: Vec<DiffChange> = Vec::new();
    let mut m: usize = 0;
    while m < order2.len()
        invariant
            bv == baseline.deep_view(),
            cv == current.deep_view(),
            bk.deep_view() == command_keys(bv),
            ck.deep_view() == command_keys(cv),
            is_last_key_order(ck.deep_view(), order2@),
            g == (|i: usize| command_added(bv, cv, i)),
            m <= order2@.len(),
            added.deep_view() == concat_map(order2@.take(m as int), g),
        decreases order2@.len() - m,
    {
        assert(order2@.take(m + 1).drop_last() =~= order2@.take(m as int));
        let i = order2[m];
        assert(i < ck@.len());
        let ghost o0 = added.deep_view();
        push_if(
            &mut added,
            !has_key(&bk, &ck[i]),
            make_change(
                "command",
                "info",
                command_key_exec(&current[i]),
                DiffValue::Null,
                command_value_exec(&current[i]),
                cat2("Suggested command added: ", current[i].command.as_str()),
            ),
        );
        assert(added.deep_view() =~= o0 + g(i));
        m += 1;
    }
    assert(order2@.take(order2@.len() as int) =~= order2@);
    append_changes(&mut out, added);
    out
}

proof fn lemma_severity_count_bound(cs: Seq<ChangeView>, severity: Seq<char>)
    ensures
        severity_count(cs, severity) <= cs.len(),
    decreases cs.len(),
{
    if cs.len() > 0 {
        lemma_severity_count_bound(cs.drop_last(), severity);
    }
}

fn count_severity(changes: &Vec<DiffChange>, severity: &str) -> (r: usize)
    ensures
        r == severity_count(changes.deep_view(), severity@),
{
    let ghost cv = changes.deep_view();
    let mut n: usize = 0;
    let mut i: usize = 0;
    while i < changes.len()
        invariant
            cv == changes.deep_view(),
            i <= cv.len(),
            n == severity_count(cv.take(i as int), severity@),
        decreases cv.len() - i,
    {
        assert(cv.take(i + 1).drop_last() =~= cv.take(i as int));
        proof {
            lemma_severity_count_bound(cv.take(i as int), severity@);
        }
        if str_eq(changes[i].severity.as_str(), severity) {
            n += 1;
        }
        i += 1;
    }
    assert(cv.take(cv.len() as int) =~= cv);
    n
}

/// The number of changes and of each severity.
pub fn summarize(changes: &Vec<DiffChange>) -> (r: DiffSummary)
    ensures
        r.changes == changes@.len(),
        r.blockers == severity_count(changes.deep_view(), "blocker"@),
        r.warnings == severity_count(changes.deep_view(), "warning"@),
        r.info == severity_count(changes.deep_view(), "info"@),
{
    DiffSummary {
        changes: changes.len(),
        blockers: count_severity(changes, "blocker"),
        warnings: count_severity(changes, "warning"),
        info: count_severity(changes, "info"),
    }
}

/// Compares the current scan with a baseline: every change, in the order
/// projects, git, tools, suite tools, lockfiles, commands, and its summary.
pub fn build_report(current: &ScanResult, baseline: &ScanResult, baseline_path: &str) -> (r: DiffReport)
    ensures
        r.repo_path@ == current.repo_path@,
        r.baseline_path@ == baseline_path@,
        r.baseline_timestamp@ == baseline.timestamp@,
        r.current_timestamp@ == current.timestamp@,
        r.changes.deep_view() == changes_between(current@, baseline@),
        r.summary.changes == r.changes@.len(),
        r.summary.blockers == severity_count(r.changes.deep_view(), "blocker"@),
        r.summary.warnings == severity_count(r.changes.deep_view(), "warning"@),
        r.summary.info == severity_count(r.changes.deep_view(), "info"@),
{
    let mut changes = diff_projects(&current.projects, &baseline.projects);
    append_changes(&mut changes, diff_git(&current.git, &baseline.git));
    append_changes(&mut changes, diff_tools(&current.tools, &baseline.tools));
    append_changes(&mut changes, diff_suite_tools(&current.suite_tools, &baseline.suite_tools));
    append_changes(&mut changes, diff_lockfiles(&current.lockfiles, &baseline.lockfiles));
    append_changes(&mut changes, diff_commands(&current.suggested_commands, &baseline.suggested_commands));
    assert(changes.deep_view() =~= changes_between(current@, baseline@));
    let summary = summarize(&changes);
    DiffReport {
        repo_path: current.repo_path.clone(),
        baseline_path: lit(baseline_path),
        baseline_timestamp: baseline.timestamp.clone(),
        current_timestamp: current.timestamp.clone(),
        summary,
        changes,
    }
}

// ---------------------------------------------------------------------------
// Laws
// ---------------------------------------------------------------------------

/// One of the three severities a change can have.
pub open spec fn known_severity(s: Seq<char>) -> bool {
    s == "blocker"@ || s == "warning"@ || s == "info"@
}

pub open spec fn all_known(cs: Seq<ChangeView>) -> bool {
    forall|j: int| 0 <= j < cs.len() ==> known_severity(#[trigger] cs[j].severity)
}

proof fn lemma_all_known_concat(a: Seq<ChangeView>, b: Seq<ChangeView>)
    requires
        all_known(a),
        all_known(b),
    ensures
        all_known(a + b),
{
    assert forall|j: int| 0 <= j < (a + b).len() implies known_severity(#[trigger] (a + b)[j].severity) by {
        if j < a.len() {
            assert((a + b)[j] == a[j]);
        } else {
            assert((a + b)[j] == b[j - a.len()]);
        }
    }
}

proof fn lemma_concat_map_known<A>(s: Seq<A>, f: spec_fn(A) -> Seq<ChangeView>)
    requires
        forall|i: int| 0 <= i < s.len() ==> all_known(#[trigger] f(s[i])),
    ensures
        all_known(concat_map(s, f)),
{
    let p = |c: ChangeView| known_severity(c.severity);
    assert forall|i: int, j: int| 0 <= i < s.len() && 0 <= j < f(s[i]).len() implies p(
        #[trigger] f(s[i])[j],
    ) by {
        assert(all_known(f(s[i])));
        assert(known_severity(f(s[i])[j].severity));
    }
    crate::seq_facts::lemma_concat_map_all(s, f, p);
    assert forall|j: int| 0 <= j < concat_map(s, f).len() implies known_severity(
        #[trigger] concat_map(s, f)[j].severity,
    ) by {
        assert(p(concat_map(s, f)[j]));
    }
}

proof fn lemma_project_changes_known(bp: Seq<ProjectView>, cp: Seq<ProjectView>)
    ensures
        all_known(project_changes(bp, cp)),
{
    lemma_concat_map_known(btree_order(project_keys(bp)), |i: usize| project_removed(bp, cp, i));
    lemma_concat_map_known(btree_order(project_keys(cp)), |i: usize| project_added(bp, cp, i));
    lemma_all_known_concat(
        concat_map(btree_order(project_keys(bp)), |i: usize| project_removed(bp, cp, i)),
        concat_map(btree_order(project_keys(cp)), |i: usize| project_added(bp, cp, i)),
    );
}

proof fn lemma_git_changes_known(bg: Option<GitStateView>, cg: Option<GitStateView>)
    ensures
        all_known(git_changes(bg, cg)),
{
    let gc = git_changes(bg, cg);
    assert(all_known(gc)) by {
        match (bg, cg) {
            (Some(b), Some(a)) => {
                assert forall|j: int| 0 <= j < gc.len() implies known_severity(#[trigger] gc[j].severity) by {
                }
            },
            _ => {},
        }
    }
}

proof fn lemma_tool_changes_known(bt: Seq<ToolInfoView>, ct: Seq<ToolInfoView>)
    ensures
        all_known(tool_changes(bt, ct)),
{
    assert forall|x: int| 0 <= x < btree_order(tool_keys(bt)).len() implies all_known(
        #[trigger] tool_before(bt, ct, btree_order(tool_keys(bt))[x]),
    ) by {
        let i = btree_order(tool_keys(bt))[x];
        let k = tool_keys(bt)[i as int];
        if tool_keys(ct).contains(k) {
            let pc = tool_before(bt, ct, i);
            assert forall|j: int| 0 <= j < pc.len() implies known_severity(#[trigger] pc[j].severity) by {}
        }
    }
    lemma_concat_map_known(btree_order(tool_keys(bt)), |i: usize| tool_before(bt, ct, i));
    lemma_concat_map_known(btree_order(tool_keys(ct)), |i: usize| tool_added(bt, ct, i));
    lemma_all_known_concat(
        concat_map(btree_order(tool_keys(bt)), |i: usize| tool_before(bt, ct, i)),
        concat_map(btree_order(tool_keys(ct)), |i: usize| tool_added(bt, ct, i)),
    );
}

proof fn lemma_suite_changes_known(bs: Seq<SuiteToolInfoView>, cs: Seq<SuiteToolInfoView>)
    ensures
        all_known(suite_changes(bs, cs)),
{
    assert forall|x: int| 0 <= x < btree_order(suite_keys(bs)).len() implies all_known(
        #[trigger] suite_before(bs, cs, btree_order(suite_keys(bs))[x]),
    ) by {
        let pc = suite_before(bs, cs, btree_order(suite_keys(bs))[x]);
        assert forall|j: int| 0 <= j < pc.len() implies known_severity(#[trigger] pc[j].severity) by {}
    }
    lemma_concat_map_known(btree_order(suite_keys(bs)), |i: usize| suite_before(bs, cs, i));
}

proof fn lemma_lockfile_changes_known(bl: Seq<LockfileInfoView>, cl: Seq<LockfileInfoView>)
    ensures
        all_known(lockfile_changes(bl, cl)),
{
    assert forall|x: int| 0 <= x < btree_order(lockfile_keys(bl)).len() implies all_known(
        #[trigger] lockfile_before(bl, cl, btree_order(lockfile_keys(bl))[x]),
    ) by {
        let pc = lockfile_before(bl, cl, btree_order(lockfile_keys(bl))[x]);
        assert forall|j: int| 0 <= j < pc.len() implies known_severity(#[trigger] pc[j].severity) by {}
    }
    lemma_concat_map_known(btree_order(lockfile_keys(bl)), |i: usize| lockfile_before(bl, cl, i));
    lemma_concat_map_known(btree_order(lockfile_keys(cl)), |i: usize| lockfile_added(bl, cl, i));
    lemma_all_known_concat(
        concat_map(btree_order(lockfile_keys(bl)), |i: usize| lockfile_before(bl, cl, i)),
        concat_map(btree_order(lockfile_keys(cl)), |i: usize| lockfile_added(bl, cl, i)),
    );
}

proof fn lemma_command_changes_known(bc: Seq<SuggestedCommandView>, cc: Seq<SuggestedCommandView>)
    ensures
        all_known(command_changes(bc, cc)),
{
    lemma_concat_map_known(btree_order(command_keys(bc)), |i: usize| command_removed(bc, cc, i));
    lemma_concat_map_known(btree_order(command_keys(cc)), |i: usize| command_added(bc, cc, i));
    lemma_all_known_concat(
        concat_map(btree_order(command_keys(bc)), |i: usize| command_removed(bc, cc, i)),
        concat_map(btree_order(command_keys(cc)), |i: usize| command_added(bc, cc, i)),
    );
}

#[verifier::spinoff_prover]
proof fn lemma_changes_known(cur: ScanView, base: ScanView)
    ensures
        all_known(changes_between(cur, base)),
{
    let p = project_changes(base.projects, cur.projects);
    let gc = git_changes(base.git, cur.git);
    let t = tool_changes(base.tools, cur.tools);
    let su = suite_changes(base.suite_tools, cur.suite_tools);
    let l = lockfile_changes(base.lockfiles, cur.lockfiles);
    let c = command_changes(base.suggested_commands, cur.suggested_commands);
    lemma_project_changes_known(base.projects, cur.projects);
    lemma_git_changes_known(base.git, cur.git);
    lemma_tool_changes_known(base.tools, cur.tools);
    lemma_suite_changes_known(base.suite_tools, cur.suite_tools);
    lemma_lockfile_changes_known(base.lockfiles, cur.lockfiles);
    lemma_command_changes_known(base.suggested_commands, cur.suggested_commands);
    lemma_all_known_concat(p, gc);
    lemma_all_known_concat(p + gc, t);
    lemma_all_known_concat(p + gc + t, su);
    lemma_all_known_concat(p + gc + t + su, l);
    lemma_all_known_concat(p + gc + t + su + l, c);
}

proof fn lemma_counts_add_up(cs: Seq<ChangeView>)
    requires
        all_known(cs),
    ensures
        severity_count(cs, "blocker"@) + severity_count(cs, "warning"@) + severity_count(cs, "info"@)
            == cs.len(),
    decreases cs.len(),
{
    if cs.len() > 0 {
        let d = cs.drop_last();
        assert forall|j: int| 0 <= j < d.len() implies known_severity(#[trigger] d[j].severity) by {
            assert(d[j] == cs[j]);
        }
        lemma_counts_add_up(d);
        reveal_strlit("blocker");
        reveal_strlit("warning");
        reveal_strlit("info");
        assert(known_severity(cs[cs.len() - 1].severity));
        assert("blocker"@[0] != "warning"@[0]);
        assert("blocker"@[0] != "info"@[0]);
        assert("warning"@[0] != "info"@[0]);
    }
}

/// Every change is a blocker, a warning or information, so the three
/// severity counts of a diff add up to its number of changes.
pub proof fn law_severity_counts_add_up(cur: ScanView, base: ScanView)
    ensures
        severity_count(changes_between(cur, base), "blocker"@) + severity_count(
            changes_between(cur, base),
            "warning"@,
        ) + severity_count(changes_between(cur, base), "info"@) == changes_between(cur, base).len(),
{
    lemma_changes_known(cur, base);
    lemma_counts_add_up(changes_between(cur, base));
}

proof fn lemma_last_of_order(keys: Seq<Seq<Seq<char>>>, pos: Seq<usize>, x: int)
    requires
        is_last_key_order(keys, pos),
        0 <= x < pos.len(),
    ensures
        pos[x] < keys.len(),
        keys.contains(keys[pos[x] as int]),
        last_index_of(keys, keys[pos[x] as int]) == pos[x],
{
    let i = pos[x] as int;
    let k = keys[i];
    assert(keys[i] == k);
    lemma_last_index_of(keys, k);
    let li = last_index_of(keys, k);
    if li < i {
        assert(keys[i] != k);
    }
    if li > i {
        assert(keys[li] != keys[pos[x] as int]);
    }
}

/// The changes of the entries `f` gives at the positions of `btree_order`
/// are empty when `f` gives nothing for a position holding the last
/// occurrence of its key.
proof fn lemma_no_keyed_changes(keys: Seq<Seq<Seq<char>>>, f: spec_fn(usize) -> Seq<ChangeView>)
    requires
        keys.len() <= usize::MAX,
        forall|i: usize|
            i < keys.len() && #[trigger] last_index_of(keys, keys[i as int]) == i && keys.contains(
                keys[i as int],
            ) ==> f(i).len() == 0,
    ensures
        concat_map(btree_order(keys), f).len() == 0,
{
    crate::order::lemma_btree_order_exists(keys);
    let pos = btree_order(keys);
    assert forall|x: int| 0 <= x < pos.len() implies f(pos[x]).len() == 0 by {
        lemma_last_of_order(keys, pos, x);
    }
    crate::seq_facts::lemma_concat_map_empty(pos, f);
}

/// A scan compared with one that found the same projects, git state, tools,
/// suite tools, lockfiles and commands shows no drift, whatever the
/// timestamps: in particular a snapshot compared with the state it saved.
#[verifier::spinoff_prover]
pub proof fn law_no_drift_without_change(cur: ScanView, base: ScanView)
    requires
        cur.projects == base.projects,
        cur.git == base.git,
        cur.tools == base.tools,
        cur.suite_tools == base.suite_tools,
        cur.lockfiles == base.lockfiles,
        cur.suggested_commands == base.suggested_commands,
        base.projects.len() <= usize::MAX,
        base.tools.len() <= usize::MAX,
        base.suite_tools.len() <= usize::MAX,
        base.lockfiles.len() <= usize::MAX,
        base.suggested_commands.len() <= usize::MAX,
    ensures
        changes_between(cur, base).len() == 0,
{
    let ps = base.projects;
    lemma_no_keyed_changes(project_keys(ps), |i: usize| project_removed(ps, ps, i));
    lemma_no_keyed_changes(project_keys(ps), |i: usize| project_added(ps, ps, i));
    let ts = base.tools;
    lemma_no_keyed_changes(tool_keys(ts), |i: usize| tool_before(ts, ts, i));
    lemma_no_keyed_changes(tool_keys(ts), |i: usize| tool_added(ts, ts, i));
    let ss = base.suite_tools;
    lemma_no_keyed_changes(suite_keys(ss), |i: usize| suite_before(ss, ss, i));
    let ls = base.lockfiles;
    lemma_no_keyed_changes(lockfile_keys(ls), |i: usize| lockfile_before(ls, ls, i));
    lemma_no_keyed_changes(lockfile_keys(ls), |i: usize| lockfile_added(ls, ls, i));
    let cs = base.suggested_commands;
    lemma_no_keyed_changes(command_keys(cs), |i: usize| command_removed(cs, cs, i));
    lemma_no_keyed_changes(command_keys(cs), |i: usize| command_added(cs, cs, i));
    assert(git_changes(base.git, cur.git).len() == 0);
}

/// Every change shows a difference.
pub open spec fn all_differ(cs: Seq<ChangeView>) -> bool {
    forall|j: int| 0 <= j < cs.len() ==> (#[trigger] cs[j]).before != cs[j].after
}

proof fn lemma_all_differ_concat(a: Seq<ChangeView>, b: Seq<ChangeView>)
    requires
        all_differ(a),
        all_differ(b),
    ensures
        all_differ(a + b),
{
    assert forall|j: int| 0 <= j < (a + b).len() implies (#[trigger] (a + b)[j]).before != (a + b)[j].after by {
        if j < a.len() {
            assert((a + b)[j] == a[j]);
        } else {
            assert((a + b)[j] == b[j - a.len()]);
        }
    }
}

proof fn lemma_concat_map_differ<A>(s: Seq<A>, f: spec_fn(A) -> Seq<ChangeView>)
    requires
        forall|i: int| 0 <= i < s.len() ==> all_differ(#[trigger] f(s[i])),
    ensures
        all_differ(concat_map(s, f)),
{
    let p = |c: ChangeView| c.before != c.after;
    assert forall|i: int, j: int| 0 <= i < s.len() && 0 <= j < f(s[i]).len() implies p(
        #[trigger] f(s[i])[j],
    ) by {
        assert(all_differ(f(s[i])));
        assert(f(s[i])[j].before != f(s[i])[j].after);
    }
    crate::seq_facts::lemma_concat_map_all(s, f, p);
    assert forall|j: int| 0 <= j < concat_map(s, f).len() implies (#[trigger] concat_map(s, f)[j]).before
        != concat_map(s, f)[j].after by {
        assert(p(concat_map(s, f)[j]));
    }
}

proof fn lemma_project_changes_differ(bp: Seq<ProjectView>, cp: Seq<ProjectView>)
    ensures
        all_differ(project_changes(bp, cp)),
{
    lemma_concat_map_differ(btree_order(project_keys(bp)), |i: usize| project_removed(bp, cp, i));
    lemma_concat_map_differ(btree_order(project_keys(cp)), |i: usize| project_added(bp, cp, i));
    lemma_all_differ_concat(
        concat_map(btree_order(project_keys(bp)), |i: usize| project_removed(bp, cp, i)),
        concat_map(btree_order(project_keys(cp)), |i: usize| project_added(bp, cp, i)),
    );
}

proof fn lemma_git_changes_differ(bg: Option<GitStateView>, cg: Option<GitStateView>)
    ensures
        all_differ(git_changes(bg, cg)),
{
    let gc = git_changes(bg, cg);
    assert(all_differ(gc)) by {
        match (bg, cg) {
            (Some(b), Some(a)) => {
                assert forall|j: int| 0 <= j < gc.len() implies (#[trigger] gc[j]).before != gc[j].after by {
                }
            },
            _ => {},
        }
    }
}

proof fn lemma_tool_changes_differ(bt: Seq<ToolInfoView>, ct: Seq<ToolInfoView>)
    ensures
        all_differ(tool_changes(bt, ct)),
{
    assert forall|x: int| 0 <= x < btree_order(tool_keys(bt)).len() implies all_differ(
        #[trigger] tool_before(bt, ct, btree_order(tool_keys(bt))[x]),
    ) by {
        let pc = tool_before(bt, ct, btree_order(tool_keys(bt))[x]);
        assert forall|j: int| 0 <= j < pc.len() implies (#[trigger] pc[j]).before != pc[j].after by {}
    }
    lemma_concat_map_differ(btree_order(tool_keys(bt)), |i: usize| tool_before(bt, ct, i));
    lemma_concat_map_differ(btree_order(tool_keys(ct)), |i: usize| tool_added(bt, ct, i));
    lemma_all_differ_concat(
        concat_map(btree_order(tool_keys(bt)), |i: usize| tool_before(bt, ct, i)),
        concat_map(btree_order(tool_keys(ct)), |i: usize| tool_added(bt, ct, i)),
    );
}

proof fn lemma_suite_changes_differ(bs: Seq<SuiteToolInfoView>, cs: Seq<SuiteToolInfoView>)
    ensures
        all_differ(suite_changes(bs, cs)),
{
    assert forall|x: int| 0 <= x < btree_order(suite_keys(bs)).len() implies all_differ(
        #[trigger] suite_before(bs, cs, btree_order(suite_keys(bs))[x]),
    ) by {
        let pc = suite_before(bs, cs, btree_order(suite_keys(bs))[x]);
        assert forall|j: int| 0 <= j < pc.len() implies (#[trigger] pc[j]).before != pc[j].after by {}
    }
    lemma_concat_map_differ(btree_order(suite_keys(bs)), |i: usize| suite_before(bs, cs, i));
}

proof fn lemma_lockfile_changes_differ(bl: Seq<LockfileInfoView>, cl: Seq<LockfileInfoView>)
    ensures
        all_differ(lockfile_changes(bl, cl)),
{
    assert forall|x: int| 0 <= x < btree_order(lockfile_keys(bl)).len() implies all_differ(
        #[trigger] lockfile_before(bl, cl, btree_order(lockfile_keys(bl))[x]),
    ) by {
        let pc = lockfile_before(bl, cl, btree_order(lockfile_keys(bl))[x]);
        assert forall|j: int| 0 <= j < pc.len() implies (#[trigger] pc[j]).before != pc[j].after by {}
    }
    lemma_concat_map_differ(btree_order(lockfile_keys(bl)), |i: usize| lockfile_before(bl, cl, i));
    lemma_concat_map_differ(btree_order(lockfile_keys(cl)), |i: usize| lockfile_added(bl, cl, i));
    lemma_all_differ_concat(
        concat_map(btree_order(lockfile_keys(bl)), |i: usize| lockfile_before(bl, cl, i)),
        concat_map(btree_order(lockfile_keys(cl)), |i: usize| lockfile_added(bl, cl, i)),
    );
}

proof fn lemma_command_changes_differ(bc: Seq<SuggestedCommandView>, cc: Seq<SuggestedCommandView>)
    ensures
        all_differ(command_changes(bc, cc)),
{
    lemma_concat_map_differ(btree_order(command_keys(bc)), |i: usize| command_removed(bc, cc, i));
    lemma_concat_map_differ(btree_order(command_keys(cc)), |i: usize| command_added(bc, cc, i));
    lemma_all_differ_concat(
        concat_map(btree_order(command_keys(bc)), |i: usize| command_removed(bc, cc, i)),
        concat_map(btree_order(command_keys(cc)), |i: usize| command_added(bc, cc, i)),
    );
}

/// No change is reported without a difference: what a change shows before
/// always differs from what it shows after.
#[verifier::spinoff_prover]
pub proof fn law_changes_show_differences(cur: ScanView, base: ScanView)
    ensures
        forall|j: int|
            0 <= j < changes_between(cur, base).len() ==> (#[trigger] changes_between(cur, base)[j]).before
                != changes_between(cur, base)[j].after,
{
    let p = project_changes(base.projects, cur.projects);
    let gc = git_changes(base.git, cur.git);
    let t = tool_changes(base.tools, cur.tools);
    let su = suite_changes(base.suite_tools, cur.suite_tools);
    let l = lockfile_changes(base.lockfiles, cur.lockfiles);
    let c = command_changes(base.suggested_commands, cur.suggested_commands);
    lemma_project_changes_differ(base.projects, cur.projects);
    lemma_git_changes_differ(base.git, cur.git);
    lemma_tool_changes_differ(base.tools, cur.tools);
    lemma_suite_changes_differ(base.suite_tools, cur.suite_tools);
    lemma_lockfile_changes_differ(base.lockfiles, cur.lockfiles);
    lemma_command_changes_differ(base.suggested_commands, cur.suggested_commands);
    lemma_all_differ_concat(p, gc);
    lemma_all_differ_concat(p + gc, t);
    lemma_all_differ_concat(p + gc + t, su);
    lemma_all_differ_concat(p + gc + t + su, l);
    lemma_all_differ_concat(p + gc + t + su + l, c);
    assert(changes_between(cur, base) == p + gc + t + su + l + c);
}

/// A blocker is a tool that stopped being available.
pub open spec fn blocker_is_lost_tool(c: ChangeView) -> bool {
    c.severity == "blocker"@ ==> c.kind == "tool"@ && c.after == ValueView::Flag(false)
}

pub open spec fn all_blockers_lost_tools(cs: Seq<ChangeView>) -> bool {
    forall|j: int| 0 <= j < cs.len() ==> blocker_is_lost_tool(#[trigger] cs[j])
}

proof fn lemma_blockers_concat(a: Seq<ChangeView>, b: Seq<ChangeView>)
    requires
        all_blockers_lost_tools(a),
        all_blockers_lost_tools(b),
    ensures
        all_blockers_lost_tools(a + b),
{
    assert forall|j: int| 0 <= j < (a + b).len() implies blocker_is_lost_tool(#[trigger] (a + b)[j]) by {
        if j < a.len() {
            assert((a + b)[j] == a[j]);
        } else {
            assert((a + b)[j] == b[j - a.len()]);
        }
    }
}

proof fn lemma_concat_map_blockers<A>(s: Seq<A>, f: spec_fn(A) -> Seq<ChangeView>)
    requires
        forall|i: int| 0 <= i < s.len() ==> all_blockers_lost_tools(#[trigger] f(s[i])),
    ensures
        all_blockers_lost_tools(concat_map(s, f)),
{
    let p = |c: ChangeView| blocker_is_lost_tool(c);
    assert forall|i: int, j: int| 0 <= i < s.len() && 0 <= j < f(s[i]).len() implies p(
        #[trigger] f(s[i])[j],
    ) by {
        assert(all_blockers_lost_tools(f(s[i])));
        assert(blocker_is_lost_tool(f(s[i])[j]));
    }
    crate::seq_facts::lemma_concat_map_all(s, f, p);
    assert forall|j: int| 0 <= j < concat_map(s, f).len() implies blocker_is_lost_tool(
        #[trigger] concat_map(s, f)[j],
    ) by {
        assert(p(concat_map(s, f)[j]));
    }
}

proof fn lemma_project_changes_blockers(bp: Seq<ProjectView>, cp: Seq<ProjectView>)
    ensures
        all_blockers_lost_tools(project_changes(bp, cp)),
{
    reveal_strlit("blocker");
    reveal_strlit("warning");
    reveal_strlit("info");
    assert("warning"@ != "blocker"@) by {
        assert("warning"@[0] != "blocker"@[0]);
    }
    assert("info"@ != "blocker"@) by {
        assert("info"@[0] != "blocker"@[0]);
    }
    lemma_concat_map_blockers(btree_order(project_keys(bp)), |i: usize| project_removed(bp, cp, i));
    lemma_concat_map_blockers(btree_order(project_keys(cp)), |i: usize| project_added(bp, cp, i));
    lemma_blockers_concat(
        concat_map(btree_order(project_keys(bp)), |i: usize| project_removed(bp, cp, i)),
        concat_map(btree_order(project_keys(cp)), |i: usize| project_added(bp, cp, i)),
    );
}

proof fn lemma_git_changes_blockers(bg: Option<GitStateView>, cg: Option<GitStateView>)
    ensures
        all_blockers_lost_tools(git_changes(bg, cg)),
{
    reveal_strlit("blocker");
    reveal_strlit("warning");
    reveal_strlit("info");
    assert("warning"@ != "blocker"@) by {
        assert("warning"@[0] != "blocker"@[0]);
    }
    assert("info"@ != "blocker"@) by {
        assert("info"@[0] != "blocker"@[0]);
    }
    let gc = git_changes(bg, cg);
    assert(all_blockers_lost_tools(gc)) by {
        match (bg, cg) {
            (Some(b), Some(a)) => {
                assert forall|j: int| 0 <= j < gc.len() implies blocker_is_lost_tool(#[trigger] gc[j]) by {}
            },
            _ => {},
        }
    }
}

proof fn lemma_tool_changes_blockers(bt: Seq<ToolInfoView>, ct: Seq<ToolInfoView>)
    ensures
        all_blockers_lost_tools(tool_changes(bt, ct)),
{
    reveal_strlit("blocker");
    reveal_strlit("warning");
    reveal_strlit("info");
    assert("warning"@ != "blocker"@) by {
        assert("warning"@[0] != "blocker"@[0]);
    }
    assert("info"@ != "blocker"@) by {
        assert("info"@[0] != "blocker"@[0]);
    }
    assert forall|x: int| 0 <= x < btree_order(tool_keys(bt)).len() implies all_blockers_lost_tools(
        #[trigger] tool_before(bt, ct, btree_order(tool_keys(bt))[x]),
    ) by {
        let pc = tool_before(bt, ct, btree_order(tool_keys(bt))[x]);
        assert forall|j: int| 0 <= j < pc.len() implies blocker_is_lost_tool(#[trigger] pc[j]) by {}
    }
    lemma_concat_map_blockers(btree_order(tool_keys(bt)), |i: usize| tool_before(bt, ct, i));
    lemma_concat_map_blockers(btree_order(tool_keys(ct)), |i: usize| tool_added(bt, ct, i));
    lemma_blockers_concat(
        concat_map(btree_order(tool_keys(bt)), |i: usize| tool_before(bt, ct, i)),
        concat_map(btree_order(tool_keys(ct)), |i: usize| tool_added(bt, ct, i)),
    );
}

proof fn lemma_suite_changes_blockers(bs: Seq<SuiteToolInfoView>, cs: Seq<SuiteToolInfoView>)
    ensures
        all_blockers_lost_tools(suite_changes(bs, cs)),
{
    reveal_strlit("blocker");
    reveal_strlit("warning");
    reveal_strlit("info");
    assert("warning"@ != "blocker"@) by {
        assert("warning"@[0] != "blocker"@[0]);
    }
    assert("info"@ != "blocker"@) by {
        assert("info"@[0] != "blocker"@[0]);
    }
    assert forall|x: int| 0 <= x < btree_order(suite_keys(bs)).len() implies all_blockers_lost_tools(
        #[trigger] suite_before(bs, cs, btree_order(suite_keys(bs))[x]),
    ) by {
        let pc = suite_before(bs, cs, btree_order(suite_keys(bs))[x]);
        assert forall|j: int| 0 <= j < pc.len() implies blocker_is_lost_tool(#[trigger] pc[j]) by {}
    }
    lemma_concat_map_blockers(btree_order(suite_keys(bs)), |i: usize| suite_before(bs, cs, i));
}

proof fn lemma_lockfile_changes_blockers(bl: Seq<LockfileInfoView>, cl: Seq<LockfileInfoView>)
    ensures
        all_blockers_lost_tools(lockfile_changes(bl, cl)),
{
    reveal_strlit("blocker");
    reveal_strlit("warning");
    reveal_strlit("info");
    assert("warning"@ != "blocker"@) by {
        assert("warning"@[0] != "blocker"@[0]);
    }
    assert("info"@ != "blocker"@) by {
        assert("info"@[0] != "blocker"@[0]);
    }
    assert forall|x: int| 0 <= x < btree_order(lockfile_keys(bl)).len() implies all_blockers_lost_tools(
        #[trigger] lockfile_before(bl, cl, btree_order(lockfile_keys(bl))[x]),
    ) by {
        let pc = lockfile_before(bl, cl, btree_order(lockfile_keys(bl))[x]);
        assert forall|j: int| 0 <= j < pc.len() implies blocker_is_lost_tool(#[trigger] pc[j]) by {}
    }
    lemma_concat_map_blockers(btree_order(lockfile_keys(bl)), |i: usize| lockfile_before(bl, cl, i));
    lemma_concat_map_blockers(btree_order(lockfile_keys(cl)), |i: usize| lockfile_added(bl, cl, i));
    lemma_blockers_concat(
        concat_map(btree_order(lockfile_keys(bl)), |i: usize| lockfile_before(bl, cl, i)),
        concat_map(btree_order(lockfile_keys(cl)), |i: usize| lockfile_added(bl, cl, i)),
    );
}

proof fn lemma_command_changes_blockers(bc: Seq<SuggestedCommandView>, cc: Seq<SuggestedCommandView>)
    ensures
        all_blockers_lost_tools(command_changes(bc, cc)),
{
    reveal_strlit("blocker");
    reveal_strlit("warning");
    reveal_strlit("info");
    assert("warning"@ != "blocker"@) by {
        assert("warning"@[0] != "blocker"@[0]);
    }
    assert("info"@ != "blocker"@) by {
        assert("info"@[0] != "blocker"@[0]);
    }
    lemma_concat_map_blockers(btree_order(command_keys(bc)), |i: usize| command_removed(bc, cc, i));
    lemma_concat_map_blockers(btree_order(command_keys(cc)), |i: usize| command_added(bc, cc, i));
    lemma_blockers_concat(
        concat_map(btree_order(command_keys(bc)), |i: usize| command_removed(bc, cc, i)),
        concat_map(btree_order(command_keys(cc)), |i: usize| command_added(bc, cc, i)),
    );
}

/// Drift is a blocker only when a tool stopped being available: every
/// blocker change is a tool's availability turning false.
#[verifier::spinoff_prover]
pub proof fn law_blockers_are_lost_tools(cur: ScanView, base: ScanView)
    ensures
        forall|j: int|
            0 <= j < changes_between(cur, base).len() && (#[trigger] changes_between(cur, base)[j]).severity
                == "blocker"@ ==> changes_between(cur, base)[j].kind == "tool"@ && changes_between(
                cur,
                base,
            )[j].after == ValueView::Flag(false),
{
    let p = project_changes(base.projects, cur.projects);
    let gc = git_changes(base.git, cur.git);
    let t = tool_changes(base.tools, cur.tools);
    let su = suite_changes(base.suite_tools, cur.suite_tools);
    let l = lockfile_changes(base.lockfiles, cur.lockfiles);
    let c = command_changes(base.suggested_commands, cur.suggested_commands);
    lemma_project_changes_blockers(base.projects, cur.projects);
    lemma_git_changes_blockers(base.git, cur.git);
    lemma_tool_changes_blockers(base.tools, cur.tools);
    lemma_suite_changes_blockers(base.suite_tools, cur.suite_tools);
    lemma_lockfile_changes_blockers(base.lockfiles, cur.lockfiles);
    lemma_command_changes_blockers(base.suggested_commands, cur.suggested_commands);
    lemma_blockers_concat(p, gc);
    lemma_blockers_concat(p + gc, t);
    lemma_blockers_concat(p + gc + t, su);
    lemma_blockers_concat(p + gc + t + su, l);
    lemma_blockers_concat(p + gc + t + su + l, c);
    assert(changes_between(cur, base) == p + gc + t + su + l + c);
    assert forall|j: int|
        0 <= j < changes_between(cur, base).len() && (#[trigger] changes_between(cur, base)[j]).severity
            == "blocker"@ implies changes_between(cur, base)[j].kind == "tool"@ && changes_between(
        cur,
        base,
    )[j].after == ValueView::Flag(false) by {
        assert(blocker_is_lost_tool(changes_between(cur, base)[j]));
    }
}

/// What each change shows, before then after.
pub open spec fn change_pairs(cs: Seq<ChangeView>) -> Seq<(ValueView, ValueView)> {
    cs.map_values(|x: ChangeView| (x.before, x.after))
}

/// What each change shows, after then before.
pub open spec fn swapped_pairs(cs: Seq<ChangeView>) -> Seq<(ValueView, ValueView)> {
    cs.map_values(|x: ChangeView| (x.after, x.before))
}

/// A change to the projects, reported as a warning.
pub open spec fn is_project_warning(x: ChangeView) -> bool {
    x.kind == "project"@ && x.severity == "warning"@ && x.field == "projects"@
}

/// A project change seen from the other side: what `b` has and `c` lacks
/// is removed going from `b` to `c`, and added going from `c` to `b`.
proof fn lemma_project_swap(b: Seq<ProjectView>, c: Seq<ProjectView>)
    ensures
        forall|i: usize|
            #[trigger] change_pairs(project_removed(b, c, i)) == swapped_pairs(project_added(c, b, i)),
        forall|i: usize|
            #[trigger] change_pairs(project_added(b, c, i)) == swapped_pairs(project_removed(c, b, i)),
{
    assert forall|i: usize|
        #[trigger] change_pairs(project_removed(b, c, i)) == swapped_pairs(project_added(c, b, i)) by {
        assert(change_pairs(project_removed(b, c, i)) =~= swapped_pairs(project_added(c, b, i)));
    }
    assert forall|i: usize|
        #[trigger] change_pairs(project_added(b, c, i)) == swapped_pairs(project_removed(c, b, i)) by {
        assert(change_pairs(project_added(b, c, i)) =~= swapped_pairs(project_removed(c, b, i)));
    }
}

/// Some change comes out when `keys` holds `k` and `f` gives a change at
/// every position holding it.
proof fn lemma_keyed_change_shows(
    keys: Seq<Seq<Seq<char>>>,
    f: spec_fn(usize) -> Seq<ChangeView>,
    k: Seq<Seq<char>>,
)
    requires
        keys.len() <= usize::MAX,
        keys.contains(k),
        forall|i: usize| i < keys.len() && keys[i as int] == k ==> #[trigger] f(i).len() > 0,
    ensures
        concat_map(btree_order(keys), f).len() > 0,
{
    crate::order::lemma_btree_order_exists(keys);
    let pos = btree_order(keys);
    let ka = crate::order::keys_at(keys, pos);
    assert(ka.contains(k));
    let x = choose|x: int| 0 <= x < ka.len() && ka[x] == k;
    assert(keys[pos[x] as int] == k);
    assert(f(pos[x]).len() > 0);
    crate::seq_facts::lemma_concat_map_len_ge(pos, f, x);
}

/// No change comes out when `f` gives nothing at any position of `keys`.
proof fn lemma_keyed_nothing_shows(keys: Seq<Seq<Seq<char>>>, f: spec_fn(usize) -> Seq<ChangeView>)
    requires
        keys.len() <= usize::MAX,
        forall|i: usize| i < keys.len() ==> #[trigger] f(i).len() == 0,
    ensures
        concat_map(btree_order(keys), f).len() == 0,
{
    crate::order::lemma_btree_order_exists(keys);
    crate::seq_facts::lemma_concat_map_empty(btree_order(keys), f);
}

/// The changes of `project_changes(b, c)` are those of
/// `project_changes(c, b)` read the other way round.
#[verifier::spinoff_prover]
proof fn lemma_project_pairs_swap(b: Seq<ProjectView>, c: Seq<ProjectView>)
    ensures
        change_pairs(project_changes(b, c)).to_multiset() == swapped_pairs(project_changes(c, b)).to_multiset(),
{
    let h = |x: ChangeView| (x.before, x.after);
    let g = |x: ChangeView| (x.after, x.before);
    assert forall|s: Seq<ChangeView>| #[trigger] change_pairs(s) == s.map_values(h) by {
        assert(change_pairs(s) =~= s.map_values(h));
    }
    assert forall|s: Seq<ChangeView>| #[trigger] swapped_pairs(s) == s.map_values(g) by {
        assert(swapped_pairs(s) =~= s.map_values(g));
    }
    let ob = btree_order(project_keys(b));
    let oc = btree_order(project_keys(c));
    let rem_bc = |i: usize| project_removed(b, c, i);
    let add_bc = |i: usize| project_added(b, c, i);
    let rem_cb = |i: usize| project_removed(c, b, i);
    let add_cb = |i: usize| project_added(c, b, i);
    let p1 = concat_map(ob, rem_bc);
    let p2 = concat_map(oc, add_bc);
    let q1 = concat_map(oc, rem_cb);
    let q2 = concat_map(ob, add_cb);
    assert(project_changes(b, c) == p1 + p2);
    assert(project_changes(c, b) == q1 + q2);
    lemma_project_swap(b, c);
    let x1 = |i: usize| change_pairs(project_removed(b, c, i));
    let y1 = |i: usize| change_pairs(project_added(b, c, i));
    assert forall|i: usize| #[trigger] x1(i) == rem_bc(i).map_values(h) by {
        assert(change_pairs(project_removed(b, c, i)) == project_removed(b, c, i).map_values(h));
    }
    assert forall|i: usize| #[trigger] x1(i) == add_cb(i).map_values(g) by {
        assert(change_pairs(project_removed(b, c, i)) == swapped_pairs(project_added(c, b, i)));
        assert(swapped_pairs(project_added(c, b, i)) == project_added(c, b, i).map_values(g));
    }
    assert forall|i: usize| #[trigger] y1(i) == add_bc(i).map_values(h) by {
        assert(change_pairs(project_added(b, c, i)) == project_added(b, c, i).map_values(h));
    }
    assert forall|i: usize| #[trigger] y1(i) == rem_cb(i).map_values(g) by {
        assert(change_pairs(project_added(b, c, i)) == swapped_pairs(project_removed(c, b, i)));
        assert(swapped_pairs(project_removed(c, b, i)) == project_removed(c, b, i).map_values(g));
    }
    crate::seq_facts::lemma_concat_map_map_values(ob, rem_bc, x1, h);
    crate::seq_facts::lemma_concat_map_map_values(ob, add_cb, x1, g);
    crate::seq_facts::lemma_concat_map_map_values(oc, add_bc, y1, h);
    crate::seq_facts::lemma_concat_map_map_values(oc, rem_cb, y1, g);
    let xs = concat_map(ob, x1);
    let ys = concat_map(oc, y1);
    assert((p1 + p2).map_values(h) =~= p1.map_values(h) + p2.map_values(h));
    assert((q1 + q2).map_values(g) =~= q1.map_values(g) + q2.map_values(g));
    assert(change_pairs(project_changes(b, c)) == xs + ys);
    assert(swapped_pairs(project_changes(c, b)) == ys + xs);
    vstd::seq_lib::lemma_multiset_commutative(xs, ys);
    vstd::seq_lib::lemma_multiset_commutative(ys, xs);
    assert(xs.to_multiset().add(ys.to_multiset()) =~= ys.to_multiset().add(xs.to_multiset()));
}

/// There are no project changes exactly when both lists hold the same
/// project keys.
proof fn lemma_project_changes_empty(b: Seq<ProjectView>, c: Seq<ProjectView>)
    requires
        b.len() <= usize::MAX,
        c.len() <= usize::MAX,
    ensures
        project_changes(b, c).len() == 0 <==> project_keys(b).to_set() == project_keys(c).to_set(),
{
    let kb = project_keys(b);
    let kc = project_keys(c);
    let rem_bc = |i: usize| project_removed(b, c, i);
    let add_bc = |i: usize| project_added(b, c, i);
    let p1 = concat_map(btree_order(kb), rem_bc);
    let p2 = concat_map(btree_order(kc), add_bc);
    assert(project_changes(b, c) == p1 + p2);
    if kb.to_set() == kc.to_set() {
        assert forall|i: usize| i < kb.len() implies #[trigger] rem_bc(i).len() == 0 by {
            assert(kb.to_set().contains(kb[i as int]));
        }
        assert forall|i: usize| i < kc.len() implies #[trigger] add_bc(i).len() == 0 by {
            assert(kc.to_set().contains(kc[i as int]));
        }
        lemma_keyed_nothing_shows(kb, rem_bc);
        lemma_keyed_nothing_shows(kc, add_bc);
    }
    if project_changes(b, c).len() == 0 {
        assert forall|k: Seq<Seq<char>>| kb.to_set().contains(k) == kc.to_set().contains(k) by {
            if kb.contains(k) && !kc.contains(k) {
                lemma_keyed_change_shows(kb, rem_bc, k);
            }
            if kc.contains(k) && !kb.contains(k) {
                lemma_keyed_change_shows(kc, add_bc, k);
            }
        }
        assert(kb.to_set() =~= kc.to_set());
    }
}

/// Comparing two lists of projects either way round gives the same changes
/// read the other way: as many of them, the before/after values of one
/// being the after/before values of the other; each is a warning about the
/// projects; and there are none exactly when both lists hold the same
/// project keys (`kind:root:manifest`).
#[verifier::spinoff_prover]
pub proof fn law_project_diff_symmetric(b: Seq<ProjectView>, c: Seq<ProjectView>)
    requires
        b.len() <= usize::MAX,
        c.len() <= usize::MAX,
    ensures
        project_changes(b, c).len() == project_changes(c, b).len(),
        change_pairs(project_changes(b, c)).to_multiset() == swapped_pairs(project_changes(c, b)).to_multiset(),
        forall|j: int|
            0 <= j < project_changes(b, c).len() ==> is_project_warning(
                #[trigger] project_changes(b, c)[j],
            ),
        project_changes(b, c).len() == 0 <==> project_keys(b).to_set() == project_keys(c).to_set(),
{
    lemma_project_pairs_swap(b, c);
    let a = project_changes(b, c);
    let r = project_changes(c, b);
    assert(change_pairs(a).len() == a.len());
    assert(swapped_pairs(r).len() == r.len());
    change_pairs(a).to_multiset_ensures();
    swapped_pairs(r).to_multiset_ensures();
    lemma_project_changes_empty(b, c);
    let ob = btree_order(project_keys(b));
    let oc = btree_order(project_keys(c));
    let rem_bc = |i: usize| project_removed(b, c, i);
    let add_bc = |i: usize| project_added(b, c, i);
    let w = |x: ChangeView| is_project_warning(x);
    crate::seq_facts::lemma_concat_map_all(ob, rem_bc, w);
    crate::seq_facts::lemma_concat_map_all(oc, add_bc, w);
    let p1 = concat_map(ob, rem_bc);
    let p2 = concat_map(oc, add_bc);
    assert(a == p1 + p2);
    assert forall|j: int| 0 <= j < a.len() implies is_project_warning(#[trigger] a[j]) by {
        if j < p1.len() {
            assert(w(p1[j]));
        } else {
            assert(w(p2[j - p1.len()]));
        }
    }
}

/// The baseline lockfile at position `i` is the one a lookup by its path
/// finds: the last entry with that path.
proof fn lemma_lockfile_last(ls: Seq<LockfileInfoView>, i: int)
    requires
        0 <= i < ls.len(),
        forall|t: int| i < t < ls.len() ==> (#[trigger] ls[t]).path != ls[i].path,
    ensures
        lockfile_keys(ls).contains(lockfile_keys(ls)[i]),
        last_index_of(lockfile_keys(ls), lockfile_keys(ls)[i]) == i,
{
    let ks = lockfile_keys(ls);
    let k = ks[i];
    assert(ks[i] == k);
    lemma_last_index_of(ks, k);
    let li = last_index_of(ks, k);
    if li > i {
        assert(ks[li][0] == ls[li].path);
        assert(k[0] == ls[i].path);
    }
    if li < i {
        assert(ks[i] != k);
    }
}

/// Drift in a lockfile both scans hold is complete: when the entries for a
/// path (the last one with it in each scan) differ in hash or in stale flag,
/// the diff holds a lockfile warning for that field, showing the baseline
/// value before and the current one after.
#[verifier::spinoff_prover]
pub proof fn law_lockfile_drift_reported(cur: ScanView, base: ScanView, i: int, j: int)
    requires
        base.lockfiles.len() <= usize::MAX,
        0 <= i < base.lockfiles.len(),
        0 <= j < cur.lockfiles.len(),
        base.lockfiles[i].path == cur.lockfiles[j].path,
        forall|t: int| i < t < base.lockfiles.len() ==> (#[trigger] base.lockfiles[t]).path != base.lockfiles[i].path,
        forall|t: int| j < t < cur.lockfiles.len() ==> (#[trigger] cur.lockfiles[t]).path != cur.lockfiles[j].path,
    ensures
        base.lockfiles[i].stale != cur.lockfiles[j].stale ==> changes_between(cur, base).contains(
            (ChangeView {
                kind: "lockfile"@,
                severity: "warning"@,
                field: base.lockfiles[i].path + ".stale"@,
                before: ValueView::Flag(base.lockfiles[i].stale),
                after: ValueView::Flag(cur.lockfiles[j].stale),
                message: "Lockfile stale state changed: "@ + base.lockfiles[i].path,
            }),
        ),
        base.lockfiles[i].hash != cur.lockfiles[j].hash ==> changes_between(cur, base).contains(
            (ChangeView {
                kind: "lockfile"@,
                severity: "warning"@,
                field: base.lockfiles[i].path + ".hash"@,
                before: ValueView::Text(base.lockfiles[i].hash),
                after: ValueView::Text(cur.lockfiles[j].hash),
                message: "Lockfile hash changed: "@ + base.lockfiles[i].path,
            }),
        ),
{
    let bl = base.lockfiles;
    let cl = cur.lockfiles;
    let b = bl[i];
    let c = cl[j];
    let kb = lockfile_keys(bl);
    let kc = lockfile_keys(cl);
    lemma_lockfile_last(bl, i);
    lemma_lockfile_last(cl, j);
    let k = kb[i];
    assert(kc[j] == k);
    assert(kc.contains(k));
    // The position of `k` in key order is `i`.
    crate::order::lemma_btree_order_exists(kb);
    let pos = btree_order(kb);
    let ka = crate::order::keys_at(kb, pos);
    assert(ka.contains(k));
    let x = choose|x: int| 0 <= x < ka.len() && ka[x] == k;
    assert(kb[pos[x] as int] == k);
    lemma_last_of_order(kb, pos, x);
    assert(pos[x] == i);
    let f = |n: usize| lockfile_before(bl, cl, n);
    let pc = lockfile_pair_changes(b, c);
    assert(f(pos[x]) == pc);
    let stale_change = ChangeView {
        kind: "lockfile"@,
        severity: "warning"@,
        field: b.path + ".stale"@,
        before: ValueView::Flag(b.stale),
        after: ValueView::Flag(c.stale),
        message: "Lockfile stale state changed: "@ + b.path,
    };
    let hash_change = ChangeView {
        kind: "lockfile"@,
        severity: "warning"@,
        field: b.path + ".hash"@,
        before: ValueView::Text(b.hash),
        after: ValueView::Text(c.hash),
        message: "Lockfile hash changed: "@ + b.path,
    };
    let l1 = concat_map(pos, f);
    let l2 = concat_map(btree_order(kc), |n: usize| lockfile_added(bl, cl, n));
    let pre = project_changes(base.projects, cur.projects) + git_changes(base.git, cur.git) + tool_changes(
        base.tools,
        cur.tools,
    ) + suite_changes(base.suite_tools, cur.suite_tools);
    let post = command_changes(base.suggested_commands, cur.suggested_commands);
    assert(changes_between(cur, base) == pre + (l1 + l2) + post);
    if b.stale != c.stale {
        let h = if_change(b.hash != c.hash, hash_change);
        assert(pc[h.len() as int] == stale_change);
        crate::seq_facts::lemma_concat_map_contains(pos, f, x, stale_change);
        crate::seq_facts::lemma_contains_concat(l1, l2, stale_change);
        crate::seq_facts::lemma_contains_concat(pre, l1 + l2, stale_change);
        crate::seq_facts::lemma_contains_concat(pre + (l1 + l2), post, stale_change);
    }
    if b.hash != c.hash {
        assert(pc[0] == hash_change);
        crate::seq_facts::lemma_concat_map_contains(pos, f, x, hash_change);
        crate::seq_facts::lemma_contains_concat(l1, l2, hash_change);
        crate::seq_facts::lemma_contains_concat(pre, l1 + l2, hash_change);
        crate::seq_facts::lemma_contains_concat(pre + (l1 + l2), post, hash_change);
    }
}

} // verus!
