//! Tool availability: which tools a repository's stacks need, what their
//! version output says, and how the agent-suite tools are linked.
use vstd::prelude::*;

use crate::detect::{DetectedProject, ProjectView};
use crate::text::{
    chars_of, has_char, has_char_exec, is_digit, lemma_char_deep_view, lines, lines_exec, lit,
    str_eq, string_of, trim, trim_exec, trim_start_char, words, words_exec,
};

verus! {

broadcast use vstd::string::group_string_axioms;

/// Whether a tool answered, and the version it reported.
pub struct ToolInfo {
    pub name: String,
    pub version: Option<String>,
    pub available: bool,
}

/// The view of a `ToolInfo`.


pub struct ToolInfoView {
    pub name: Seq<char>,
    pub version: Option<Seq<char>>,
    pub available: bool,
}

impl View for ToolInfo {
    type V = ToolInfoView;

    open spec fn view(&self) -> ToolInfoView {
        ToolInfoView { name: self.name@, version: self.version.deep_view(), available: self.available }
    }
}

impl DeepView for ToolInfo {
    type V = ToolInfoView;

    open spec fn deep_view(&self) -> ToolInfoView {
        self@
    }
}

/// An agent-suite tool: installed or not, and linked to this repository or
/// not.
pub struct SuiteToolInfo {
    pub name: String,
    pub binary: String,
    pub role: String,
    pub installed: bool,
    pub version: Option<String>,
    pub state_path: Option<String>,
    pub initialized: bool,
    pub state: String,
}

/// The view of a `SuiteToolInfo`.


pub struct SuiteToolInfoView {
    pub name: Seq<char>,
    pub binary: Seq<char>,
    pub role: Seq<char>,
    pub installed: bool,
    pub version: Option<Seq<char>>,
    pub state_path: Option<Seq<char>>,
    pub initialized: bool,
    pub state: Seq<char>,
}

impl View for SuiteToolInfo {
    type V = SuiteToolInfoView;

    open spec fn view(&self) -> SuiteToolInfoView {
        SuiteToolInfoView {
            name: self.name@,
            binary: self.binary@,
            role: self.role@,
            installed: self.installed,
            version: self.version.deep_view(),
            state_path: self.state_path.deep_view(),
            initialized: self.initialized,
            state: self.state@,
        }
    }
}

impl DeepView for SuiteToolInfo {
    type V = SuiteToolInfoView;

    open spec fn deep_view(&self) -> SuiteToolInfoView {
        self@
    }
}

// ---------------------------------------------------------------------------
// Version output
// ---------------------------------------------------------------------------

/// The first line of `raw`, or `raw` itself when it has none.
pub open spec fn first_line(raw: Seq<char>) -> Seq<char> {
    if lines(raw).len() > 0 {
        lines(raw)[0]
    } else {
        raw
    }
}

/// A word, with leading `v`s dropped, that starts with a digit and holds a
/// dot; else `fallback`.
pub open spec fn version_in_words(ws: Seq<Seq<char>>, fallback: Seq<char>) -> Seq<char>
    decreases ws.len(),
{
    if ws.len() == 0 {
        fallback
    } else {
        let w = trim_start_char(ws[0], 'v');
        if w.len() > 0 && is_digit(w[0]) && has_char(w, '.') {
            w
        } else {
            version_in_words(ws.drop_first(), fallback)
        }
    }
}

/// The version number in a tool's `--version` output ("rustc 1.79.0" gives
/// "1.79.0", "v20.11.0" gives "20.11.0"), else the output's first line.
pub open spec fn version_of(raw: Seq<char>) -> Seq<char> {
    version_in_words(words(first_line(raw)), first_line(raw))
}

/// The version number in a tool's version output.
pub fn extract_version(raw: &str) -> (r: String)
    ensures
        r@ == version_of(raw@),
{
    let c = chars_of(raw);
    let ls = lines_exec(c.as_slice());
    let first: Vec<char> = if ls.len() > 0 {
        proof {
            lemma_char_deep_view(ls@[0]);
        }
        crate::text::slice_vec(ls[0].as_slice(), 0, ls[0].len())
    } else {
        c
    };
    assert(first@ == first_line(raw@)) by {
        if ls@.len() > 0 {
            assert(ls[0]@.subrange(0, ls[0]@.len() as int) =~= ls[0]@);
        }
    }
    let ws = words_exec(first.as_slice());
    let ghost wv = ws.deep_view();
    let mut i: usize = 0;
    assert(wv.skip(0) =~= wv);
    while i < ws.len()
        invariant
            wv == ws.deep_view(),
            i <= wv.len(),
            first@ == first_line(raw@),
            wv == words(first@),
            version_of(raw@) == version_in_words(wv.skip(i as int), first@),
        decreases wv.len() - i,
    {
        proof {
            lemma_char_deep_view(ws@[i as int]);
        }
        assert(wv.skip(i as int)[0] == wv[i as int]);
        let w = crate::text::trim_start_char_exec(ws[i].as_slice(), 'v');
        if w.len() > 0 && '0' <= w[0] && w[0] <= '9' && has_char_exec(w.as_slice(), '.') {
            return string_of(w.as_slice());
        }
        assert(wv.skip(i as int).drop_first() =~= wv.skip(i + 1));
        i += 1;
    }
    string_of(first.as_slice())
}

/// What a tool check found: `Some` with the standard output when the command
/// ran and succeeded.
pub open spec fn tool_info_of(name: Seq<char>, output: Option<Seq<char>>) -> ToolInfoView {
    match output {
        Some(out) => ToolInfoView { name, version: Some(version_of(trim(out))), available: true },
        None => ToolInfoView { name, version: None, available: false },
    }
}

/// The tool information a check's outcome gives: what the command printed
/// when it ran and succeeded, `None` otherwise.
pub fn tool_info_from_output(name: &str, output: &Option<String>) -> (r: ToolInfo)
    ensures
        r@ == tool_info_of(name@, output.deep_view()),
{
    match output {
        Some(out) => {
            let c = chars_of(out.as_str());
            let t = trim_exec(c.as_slice());
            let raw = string_of(t.as_slice());
            ToolInfo { name: lit(name), version: Some(extract_version(raw.as_str())), available: true }
        },
        None => ToolInfo { name: lit(name), version: None, available: false },
    }
}

// ---------------------------------------------------------------------------
// Which tools a repository needs
// ---------------------------------------------------------------------------

/// A command to run to see whether a tool is there: `binary args...`,
/// reported under `name`.
pub struct ToolCheck {
    pub name: String,
    pub binary: String,
    pub args: Vec<String>,
}

/// The view of a `ToolCheck`.


pub struct ToolCheckView {
    pub name: Seq<char>,
    pub binary: Seq<char>,
    pub args: Seq<Seq<char>>,
}

impl View for ToolCheck {
    type V = ToolCheckView;

    open spec fn view(&self) -> ToolCheckView {
        ToolCheckView { name: self.name@, binary: self.binary@, args: self.args.deep_view() }
    }
}

impl DeepView for ToolCheck {
    type V = ToolCheckView;

    open spec fn deep_view(&self) -> ToolCheckView {
        self@
    }
}

/// `binary --version`, reported under the binary's name.
pub open spec fn version_check(binary: Seq<char>) -> ToolCheckView {
    ToolCheckView { name: binary, binary, args: seq!["--version"@] }
}

/// The checks planned so far, and the keys already checked.
pub open spec fn plan_add(
    st: (Seq<Seq<char>>, Seq<ToolCheckView>),
    key: Seq<char>,
    check: ToolCheckView,
) -> (Seq<Seq<char>>, Seq<ToolCheckView>) {
    if st.0.contains(key) {
        st
    } else {
        (st.0.push(key), st.1.push(check))
    }
}

/// The package manager a Node project names, `npm` when it names none.
pub open spec fn node_package_manager(p: ProjectView) -> Seq<char> {
    match p.metadata.package_manager {
        Some(pm) => pm,
        None => "npm"@,
    }
}

/// The checks one project adds.
pub open spec fn plan_for(st: (Seq<Seq<char>>, Seq<ToolCheckView>), p: ProjectView) -> (
    Seq<Seq<char>>,
    Seq<ToolCheckView>,
) {
    if p.kind == "rust"@ || p.kind == "tauri"@ {
        let s1 = plan_add(st, "rustc"@, version_check("rustc"@));
        let s2 = plan_add(s1, "cargo"@, version_check("cargo"@));
        let s3 = plan_add(s2, "rustfmt"@, version_check("rustfmt"@));
        plan_add(
            s3,
            "clippy-driver"@,
            ToolCheckView { name: "clippy"@, binary: "cargo"@, args: seq!["clippy"@, "--version"@] },
        )
    } else if p.kind == "node"@ {
        let s1 = plan_add(st, "node"@, version_check("node"@));
        plan_add(s1, node_package_manager(p), version_check(node_package_manager(p)))
    } else if p.kind == "python"@ {
        let s1 = plan_add(st, "python3"@, version_check("python3"@));
        plan_add(s1, "pip"@, version_check("pip"@))
    } else if p.kind == "go"@ {
        plan_add(st, "go"@, ToolCheckView { name: "go"@, binary: "go"@, args: seq!["version"@] })
    } else {
        st
    }
}

/// The checks for `ps`, after git, which is always checked.
pub open spec fn plan_all(ps: Seq<ProjectView>) -> (Seq<Seq<char>>, Seq<ToolCheckView>)
    decreases ps.len(),
{
    if ps.len() == 0 {
        (seq!["git"@], seq![version_check("git"@)])
    } else {
        plan_for(plan_all(ps.drop_last()), ps.last())
    }
}

/// The tool checks a repository with these projects needs, each tool once:
/// git, then each stack's tools in project order.
pub open spec fn tool_plan(ps: Seq<ProjectView>) -> Seq<ToolCheckView> {
    plan_all(ps).1
}

fn strings_of(parts: &[&str]) -> (r: Vec<String>)
    ensures
        r.deep_view() == parts@.map_values(|p: &str| p@),
{
    let mut r: Vec<String> = Vec::new();
    let mut i: usize = 0;
    while i < parts.len()
        invariant
            i <= parts@.len(),
            r.deep_view() == parts@.take(i as int).map_values(|p: &str| p@),
        decreases parts@.len() - i,
    {
        let ghost r0 = r.deep_view();
        let x = lit(parts[i]);
        assert(x@ == parts@[i as int]@);
        r.push(x);
        assert(r.deep_view() =~= r0.push(parts@[i as int]@));
        assert(parts@.take(i + 1) =~= parts@.take(i as int).push(parts@[i as int]));
        assert(r.deep_view() =~= parts@.take(i + 1).map_values(|p: &str| p@));
        i += 1;
    }
    assert(parts@.take(parts@.len() as int) =~= parts@);
    r
}

fn make_version_check(binary: &str) -> (r: ToolCheck)
    ensures
        r@ == version_check(binary@),
{
    let args = strings_of(&["--version"]);
    assert(args.deep_view() =~= seq!["--version"@]);
    ToolCheck { name: lit(binary), binary: lit(binary), args }
}

/// Plans a check under `key` unless one is planned already.
fn plan_add_exec(keys: &mut Vec<String>, plan: &mut Vec<ToolCheck>, key: &str, check: ToolCheck)
    ensures
        (final(keys).deep_view(), final(plan).deep_view()) == plan_add(
            (old(keys).deep_view(), old(plan).deep_view()),
            key@,
            check@,
        ),
{
    let mut i: usize = 0;
    while i < keys.len()
        invariant
            i <= keys@.len(),
            forall|j: int| 0 <= j < i ==> keys.deep_view()[j] != key@,
        decreases keys@.len() - i,
    {
        if str_eq(keys[i].as_str(), key) {
            assert(keys.deep_view()[i as int] == key@);
            return;
        }
        i += 1;
    }
    let ghost k0 = keys.deep_view();
    let ghost p0 = plan.deep_view();
    keys.push(lit(key));
    let ghost c = check@;
    plan.push(check);
    assert(keys.deep_view() =~= k0.push(key@));
    assert(plan.deep_view() =~= p0.push(c));
}

/// The tool checks a repository with these projects needs.
pub fn plan_tool_checks(projects: &Vec<DetectedProject>) -> (r: Vec<ToolCheck>)
    ensures
        r.deep_view() == tool_plan(projects.deep_view()),
{
    let ghost pv = projects.deep_view();
    let mut keys: Vec<String> = Vec::new();
    let mut plan: Vec<ToolCheck> = Vec::new();
    keys.push(lit("git"));
    let git = make_version_check("git");
    let ghost g = git@;
    plan.push(git);
    assert(keys.deep_view() =~= seq!["git"@]);
    assert(plan.deep_view() =~= seq![g]);
    let mut i: usize = 0;
    while i < projects.len()
        invariant
            pv == projects.deep_view(),
            i <= pv.len(),
            (keys.deep_view(), plan.deep_view()) == plan_all(pv.take(i as int)),
        decreases pv.len() - i,
    {
        assert(pv.take(i + 1).drop_last() =~= pv.take(i as int));
        let p = &projects[i];
        if str_eq(p.kind.as_str(), "rust") || str_eq(p.kind.as_str(), "tauri") {
            plan_add_exec(&mut keys, &mut plan, "rustc", make_version_check("rustc"));
            plan_add_exec(&mut keys, &mut plan, "cargo", make_version_check("cargo"));
            plan_add_exec(&mut keys, &mut plan, "rustfmt", make_version_check("rustfmt"));
            let args = strings_of(&["clippy", "--version"]);
            assert(args.deep_view() =~= seq!["clippy"@, "--version"@]);
            let clippy = ToolCheck { name: lit("clippy"), binary: lit("cargo"), args };
            plan_add_exec(&mut keys, &mut plan, "clippy-driver", clippy);
        } else if str_eq(p.kind.as_str(), "node") {
            plan_add_exec(&mut keys, &mut plan, "node", make_version_check("node"));
            let pm: String = match &p.metadata.package_manager {
                Some(pm) => pm.clone(),
                None => lit("npm"),
            };
            assert(pm@ == node_package_manager(pv[i as int]));
            plan_add_exec(&mut keys, &mut plan, pm.as_str(), make_version_check(pm.as_str()));
        } else if str_eq(p.kind.as_str(), "python") {
            plan_add_exec(&mut keys, &mut plan, "python3", make_version_check("python3"));
            plan_add_exec(&mut keys, &mut plan, "pip", make_version_check("pip"));
        } else if str_eq(p.kind.as_str(), "go") {
            let args = strings_of(&["version"]);
            assert(args.deep_view() =~= seq!["version"@]);
            let go = ToolCheck { name: lit("go"), binary: lit("go"), args };
            plan_add_exec(&mut keys, &mut plan, "go", go);
        }
        i += 1;
    }
    assert(pv.take(pv.len() as int) =~= pv);
    plan
}

/// The tools that checks with these outcomes show: check `i` found
/// `outputs[i]`.
pub fn detect_tools(checks: &Vec<ToolCheck>, outputs: &Vec<Option<String>>) -> (r: Vec<ToolInfo>)
    requires
        checks@.len() == outputs@.len(),
    ensures
        r.deep_view() == Seq::new(
            checks@.len(),
            |i: int| tool_info_of(checks@[i].name@, outputs@[i].deep_view()),
        ),
{
    let mut r: Vec<ToolInfo> = Vec::new();
    let mut i: usize = 0;
    while i < checks.len()
        invariant
            checks@.len() == outputs@.len(),
            i <= checks@.len(),
            r.deep_view() == Seq::new(
                i as nat,
                |k: int| tool_info_of(checks@[k].name@, outputs@[k].deep_view()),
            ),
        decreases checks@.len() - i,
    {
        let t = tool_info_from_output(checks[i].name.as_str(), &outputs[i]);
        let ghost r0 = r.deep_view();
        let ghost tv = t@;
        r.push(t);
        assert(r.deep_view() =~= r0.push(tv));
        assert(r.deep_view() =~= Seq::new(
            (i + 1) as nat,
            |k: int| tool_info_of(checks@[k].name@, outputs@[k].deep_view()),
        ));
        i += 1;
    }
    r
}

// ---------------------------------------------------------------------------
// Agent-suite tools
// ---------------------------------------------------------------------------

/// A tool of the agent suite: its binary, what it does, and the repository
/// path its state lives at, if it keeps any.
pub struct SuiteToolDefinition {
    pub name: String,
    pub binary: String,
    pub role: String,
    pub state_path: Option<String>,
}

/// The view of a `SuiteToolDefinition`.


pub struct SuiteToolDefinitionView {
    pub name: Seq<char>,
    pub binary: Seq<char>,
    pub role: Seq<char>,
    pub state_path: Option<Seq<char>>,
}

impl View for SuiteToolDefinition {
    type V = SuiteToolDefinitionView;

    open spec fn view(&self) -> SuiteToolDefinitionView {
        SuiteToolDefinitionView {
            name: self.name@,
            binary: self.binary@,
            role: self.role@,
            state_path: self.state_path.deep_view(),
        }
    }
}

impl DeepView for SuiteToolDefinition {
    type V = SuiteToolDefinitionView;

    open spec fn deep_view(&self) -> SuiteToolDefinitionView {
        self@
    }
}

pub open spec fn suite_def(name: Seq<char>, role: Seq<char>, state_path: Option<Seq<char>>) -> SuiteToolDefinitionView {
    SuiteToolDefinitionView { name, binary: name, role, state_path }
}

/// The live agent suite.
pub open spec fn suite_definitions() -> Seq<SuiteToolDefinitionView> {
    seq![
        suite_def("probe"@, "project preflight and drift scanner"@, Some(".agent-probe"@)),
        suite_def("latch"@, "repo-local coordination ledger"@, Some(".agent-workspace/workspace.sqlite"@)),
        suite_def("sentinel"@, "regression risk watcher"@, Some(".agent-sentinel/matrix.json"@)),
        suite_def("witness"@, "command evidence recorder"@, Some(".agent-witness"@)),
        suite_def("switchboard"@, "human/agent operations room"@, None),
        suite_def("sieve"@, "test impact recommender"@, None),
        suite_def("rivet"@, "patch intent verifier"@, None),
        suite_def("acurl"@, "agent-first HTTP client"@, Some(".agent-acurl"@)),
        suite_def("quarry"@, "dependency audit and update planner"@, None),
    ]
}

fn make_def(name: &str, role: &str, state_path: Option<&str>) -> (r: SuiteToolDefinition)
    ensures
        r@ == suite_def(name@, role@, match state_path {
            Some(p) => Some(p@),
            None => None,
        }),
{
    SuiteToolDefinition {
        name: lit(name),
        binary: lit(name),
        role: lit(role),
        state_path: match state_path {
            Some(p) => Some(lit(p)),
            None => None,
        },
    }
}

/// The live agent suite.
pub fn suite_tool_definitions() -> (r: Vec<SuiteToolDefinition>)
    ensures
        r.deep_view() == suite_definitions(),
{
    let mut r: Vec<SuiteToolDefinition> = Vec::new();
    r.push(make_def("probe", "project preflight and drift scanner", Some(".agent-probe")));
    r.push(make_def("latch", "repo-local coordination ledger", Some(".agent-workspace/workspace.sqlite")));
    r.push(make_def("sentinel", "regression risk watcher", Some(".agent-sentinel/matrix.json")));
    r.push(make_def("witness", "command evidence recorder", Some(".agent-witness")));
    r.push(make_def("switchboard", "human/agent operations room", None));
    r.push(make_def("sieve", "test impact recommender", None));
    r.push(make_def("rivet", "patch intent verifier", None));
    r.push(make_def("acurl", "agent-first HTTP client", Some(".agent-acurl")));
    r.push(make_def("quarry", "dependency audit and update planner", None));
    assert(r.deep_view() =~= suite_definitions());
    r
}

/// What looking for one suite tool found: the output of a successful
/// `binary --version`, whether `binary --help` succeeded, and whether the
/// tool's state path exists in the repository.
pub struct SuiteProbe {
    pub version_output: Option<String>,
    pub help_ok: bool,
    pub state_path_exists: bool,
}

/// The view of a `SuiteProbe`.


pub struct SuiteProbeView {
    pub version_output: Option<Seq<char>>,
    pub help_ok: bool,
    pub state_path_exists: bool,
}

impl View for SuiteProbe {
    type V = SuiteProbeView;

    open spec fn view(&self) -> SuiteProbeView {
        SuiteProbeView {
            version_output: self.version_output.deep_view(),
            help_ok: self.help_ok,
            state_path_exists: self.state_path_exists,
        }
    }
}

impl DeepView for SuiteProbe {
    type V = SuiteProbeView;

    open spec fn deep_view(&self) -> SuiteProbeView {
        self@
    }
}

/// A suite tool is installed when `--version` or, failing that, `--help`
/// succeeds; it is initialized when its state path exists, or, for a tool
/// without one, when it is installed; and it is `missing`, `linked` or
/// `available` accordingly.
pub open spec fn suite_info_of(d: SuiteToolDefinitionView, p: SuiteProbeView) -> SuiteToolInfoView {
    let installed = p.version_output is Some || p.help_ok;
    let initialized = match d.state_path {
        Some(_) => p.state_path_exists,
        None => installed,
    };
    SuiteToolInfoView {
        name: d.name,
        binary: d.binary,
        role: d.role,
        installed,
        version: match p.version_output {
            Some(out) => Some(version_of(trim(out))),
            None => None,
        },
        state_path: d.state_path,
        initialized,
        state: if !installed {
            "missing"@
        } else if initialized {
            "linked"@
        } else {
            "available"@
        },
    }
}

/// The suite-tool states: `missing` exactly when the binary was not found,
/// `linked` exactly when it was and its repository state is present, and
/// `available` otherwise; a tool without a state path counts as initialized
/// when installed, one with a state path when that path exists.
pub proof fn law_suite_tool_states(d: SuiteToolDefinitionView, p: SuiteProbeView)
    ensures
        suite_info_of(d, p).state == "missing"@ <==> !suite_info_of(d, p).installed,
        suite_info_of(d, p).state == "linked"@ <==> (suite_info_of(d, p).installed
            && suite_info_of(d, p).initialized),
        suite_info_of(d, p).state == "available"@ <==> (suite_info_of(d, p).installed
            && !suite_info_of(d, p).initialized),
        d.state_path is None ==> suite_info_of(d, p).initialized == suite_info_of(d, p).installed,
        d.state_path is Some ==> suite_info_of(d, p).initialized == p.state_path_exists,
        suite_info_of(d, p).installed == (p.version_output is Some || p.help_ok),
{
    reveal_strlit("missing");
    reveal_strlit("linked");
    reveal_strlit("available");
    assert("missing"@[0] != "linked"@[0]);
    assert("missing"@[0] != "available"@[0]);
    assert("linked"@[0] != "available"@[0]);
}

/// The suite tools as the probes found them, probe `i` for tool `i` of
/// `suite_definitions`.
pub fn detect_suite_tools(probes: &Vec<SuiteProbe>) -> (r: Vec<SuiteToolInfo>)
    requires
        probes@.len() == suite_definitions().len(),
    ensures
        r.deep_view() == Seq::new(
            suite_definitions().len(),
            |i: int| suite_info_of(suite_definitions()[i], probes@[i]@),
        ),
{
    let defs = suite_tool_definitions();
    let mut r: Vec<SuiteToolInfo> = Vec::new();
    let mut i: usize = 0;
    while i < defs.len()
        invariant
            defs.deep_view() == suite_definitions(),
            probes@.len() == defs@.len(),
            i <= defs@.len(),
            r.deep_view() == Seq::new(i as nat, |k: int| suite_info_of(suite_definitions()[k], probes@[k]@)),
        decreases defs@.len() - i,
    {
        let d = &defs[i];
        let p = &probes[i];
        let installed = p.version_output.is_some() || p.help_ok;
        let initialized = match &d.state_path {
            Some(_) => p.state_path_exists,
            None => installed,
        };
        let version = match &p.version_output {
            Some(out) => {
                let c = chars_of(out.as_str());
                let t = trim_exec(c.as_slice());
                let raw = string_of(t.as_slice());
                Some(extract_version(raw.as_str()))
            },
            None => None,
        };
        let state = if !installed {
            lit("missing")
        } else if initialized {
            lit("linked")
        } else {
            lit("available")
        };
        let info = SuiteToolInfo {
            name: d.name.clone(),
            binary: d.binary.clone(),
            role: d.role.clone(),
            installed,
            version,
            state_path: match &d.state_path {
                Some(s) => Some(s.clone()),
                None => None,
            },
            initialized,
            state,
        };
        assert(info@ == suite_info_of(suite_definitions()[i as int], probes@[i as int]@));
        let ghost r0 = r.deep_view();
        let ghost iv = info@;
        r.push(info);
        assert(r.deep_view() =~= r0.push(iv));
        assert(r.deep_view() =~= Seq::new(
            (i + 1) as nat,
            |k: int| suite_info_of(suite_definitions()[k], probes@[k]@),
        ));
        i += 1;
    }
    r
}

/// A copy of a suite tool record.
pub fn copy_suite_tool(t: &SuiteToolInfo) -> (r: SuiteToolInfo)
    ensures
        r@ == t@,
{
    SuiteToolInfo {
        name: t.name.clone(),
        binary: t.binary.clone(),
        role: t.role.clone(),
        installed: t.installed,
        version: match &t.version {
            Some(v) => Some(v.clone()),
            None => None,
        },
        state_path: match &t.state_path {
            Some(v) => Some(v.clone()),
            None => None,
        },
        initialized: t.initialized,
        state: t.state.clone(),
    }
}

/// Copies of suite tool records.
pub fn copy_suite_tools(v: &Vec<SuiteToolInfo>) -> (r: Vec<SuiteToolInfo>)
    ensures
        r.deep_view() == v.deep_view(),
{
    let mut r: Vec<SuiteToolInfo> = Vec::new();
    let mut i: usize = 0;
    while i < v.len()
        invariant
            i <= v@.len(),
            r.deep_view() == v.deep_view().take(i as int),
        decreases v@.len() - i,
    {
        let ghost r0 = r.deep_view();
        let c = copy_suite_tool(&v[i]);
        r.push(c);
        assert(r.deep_view() =~= r0.push(v.deep_view()[i as int]));
        assert(v.deep_view().take(i + 1) =~= v.deep_view().take(i as int).push(v.deep_view()[i as int]));
        i += 1;
    }
    assert(v.deep_view().take(v@.len() as int) =~= v.deep_view());
    r
}

} // verus!
