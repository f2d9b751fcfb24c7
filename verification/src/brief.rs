//! The brief: the compact cold-start read of a repository that an agent takes
//! first. It composes the scan and the doctor with a few cheap, bounded extra
//! sources (PROJECT.md and README front matter, changed files, TODO markers,
//! a sentinel summary). The reading of files and directories happens outside;
//! here is what is made of what was read.
use vstd::prelude::*;

use crate::detect::{opt_string_copy, DetectedProject, ProjectView};
use crate::doctor::{action_level_of, blockers_of, status_of, warnings_of, DoctorCommand, DoctorIssue};
use crate::git::{
    changed_files_of, commit_count_of, parse_changed_files, parse_commit_count, ChangedFile,
    ChangedFileView, GitState, GitStateView, RecentCommit, RecentCommitView,
};
use crate::order::{lemma_str_lt_asym, lemma_str_lt_trans, str_lt, str_lt_exec};
use crate::scan::{LockfileInfo, LockfileInfoView, ScanResult};
use crate::seq_facts::{cap, first_map};
use crate::text::{
    utf8_len,
    ascii_lower, ascii_lower_exec, chars_eq, chars_of, ends_with, ends_with_exec, is_alnum,
    is_alnum_exec, join, join_exec, lemma_char_deep_view, lines, lines_exec, occurs_at,
    occurs_at_exec, slice_vec, split_once, split_once_exec, starts_with, starts_with_exec,
    string_of, strip_prefix_exec, trim, trim_end, trim_end_char, trim_end_char_exec, trim_end_exec,
    trim_exec, trim_start, trim_start_char, trim_start_char_exec, trim_start_exec, opt_nat,
};
use crate::tools::{ToolInfo, ToolInfoView};

verus! {

broadcast use vstd::string::group_string_axioms;

/// The schema version of the brief.

pub const BRIEF_SCHEMA_VERSION: &'static str = "probe.brief.v1";

/// At most this many changed files are listed.
pub const CHANGED_FILES_LIMIT: usize = 10;

/// At most this many recent commits are listed.
pub const RECENT_COMMITS_LIMIT: usize = 5;

/// At most this many section headings are listed per document.
pub const HEADINGS_LIMIT: usize = 12;

/// Summaries are cut to this many characters.
pub const SUMMARY_CHARS: usize = 240;

/// The files with the most TODO markers that are listed.
pub const TODO_TOP_FILES: usize = 5;

/// The TODO walk reads at most this many files.
pub const TODO_MAX_FILES: usize = 3000;

/// The TODO walk goes at most this deep.
pub const TODO_MAX_DEPTH: usize = 6;

/// Larger files are not searched for TODO markers.
pub const TODO_MAX_FILE_BYTES: u64 = 256 * 1024;

// ---------------------------------------------------------------------------
// Labels, headings and paragraphs
// ---------------------------------------------------------------------------

/// Does `s` take more than `limit` bytes in UTF-8?
fn utf8_len_exceeds(s: &[char], limit: usize) -> (r: bool)
    requires
        limit < 1000,
    ensures
        r == (utf8_len(s@) > limit),
{
    let mut n: usize = 0;
    let mut i: usize = 0;
    while i < s.len()
        invariant
            limit < 1000,
            i <= s@.len(),
            n as int == if utf8_len(s@.take(i as int)) <= limit {
                utf8_len(s@.take(i as int)) as int
            } else {
                limit + 1
            },
        decreases s@.len() - i,
    {
        assert(s@.take(i + 1).drop_last() =~= s@.take(i as int));
        let c = s[i];
        let code = c as u32;
        let w: usize = if code < 0x80 {
            1
        } else if code < 0x800 {
            2
        } else if code < 0x10000 {
            3
        } else {
            4
        };
        n = n + w;
        if n > limit {
            n = limit + 1;
        }
        i += 1;
    }
    assert(s@.take(s@.len() as int) =~= s@);
    n > limit
}

/// The label and value of a `**Label:** value` line (the PROJECT.md house
/// style; `**Label**: value` is taken too): a label of at most 24 bytes
/// without its colons, and a value that is not empty.
pub open spec fn bold_label(line: Seq<char>) -> Option<(Seq<char>, Seq<char>)> {
    let t = trim(line);
    if !starts_with(t, "**"@) {
        None
    } else {
        match split_once(t.skip("**"@.len() as int), "**"@) {
            None => None,
            Some((raw, rest)) => {
                let label = trim(raw);
                let has_colon = ends_with(label, ":"@) || starts_with(trim_start(rest), ":"@);
                let name = trim_end_char(label, ':');
                let value = trim(trim_start_char(trim(rest), ':'));
                if !has_colon || name.len() == 0 || utf8_len(name) > 24 || value.len() == 0 {
                    None
                } else {
                    Some((name, value))
                }
            },
        }
    }
}

/// Parses a `**Label:** value` line.
pub fn parse_bold_label(line: &str) -> (r: Option<(String, String)>)
    ensures
        match r {
            Some((a, b)) => bold_label(line@) == Some((a@, b@)),
            None => bold_label(line@) is None,
        },
{
    let c = chars_of(line);
    let t = trim_exec(c.as_slice());
    let star = chars_of("**");
    let rest = match strip_prefix_exec(t.as_slice(), star.as_slice()) {
        Some(r) => r,
        None => return None,
    };
    let (raw, after) = match split_once_exec(rest.as_slice(), star.as_slice()) {
        Some(p) => p,
        None => return None,
    };
    let label = trim_exec(raw.as_slice());
    let colon = chars_of(":");
    let after_start = trim_start_exec(after.as_slice());
    let has_colon = ends_with_exec(label.as_slice(), colon.as_slice()) || starts_with_exec(
        after_start.as_slice(),
        colon.as_slice(),
    );
    let name = trim_end_char_exec(label.as_slice(), ':');
    if !has_colon || name.len() == 0 || utf8_len_exceeds(name.as_slice(), 24) {
        return None;
    }
    let after_trimmed = trim_exec(after.as_slice());
    let unprefixed = trim_start_char_exec(after_trimmed.as_slice(), ':');
    let value = trim_exec(unprefixed.as_slice());
    if value.len() == 0 {
        return None;
    }
    Some((string_of(name.as_slice()), string_of(value.as_slice())))
}

/// The title of a `# Title` line.
pub open spec fn h1_of(line: Seq<char>) -> Option<Seq<char>> {
    let t = trim(line);
    if starts_with(t, "# "@) {
        Some(trim(t.skip("# "@.len() as int)))
    } else {
        None
    }
}

/// The heading of a `## Heading` line.
pub open spec fn h2_of(line: Seq<char>) -> Option<Seq<char>> {
    let t = trim(line);
    if starts_with(t, "## "@) {
        Some(trim(t.skip("## "@.len() as int)))
    } else {
        None
    }
}

/// The first `# Title` of a document.
pub open spec fn first_heading_of(content: Seq<char>) -> Option<Seq<char>> {
    first_map(lines(content), |l: Seq<char>| h1_of(l))
}

/// The `## ` headings of a document, at most `HEADINGS_LIMIT` of them.
pub open spec fn headings_of(content: Seq<char>) -> Seq<Seq<char>> {
    cap(lines(content).filter_map(|l: Seq<char>| h2_of(l)), HEADINGS_LIMIT as nat)
}

/// `a` and `b` are equal but for ASCII case (`str::eq_ignore_ascii_case`).
pub open spec fn eq_ignore_case(a: Seq<char>, b: Seq<char>) -> bool {
    ascii_lower(a) == ascii_lower(b)
}

/// `s` trimmed and, when longer than `max` characters, cut to `max - 1` of
/// them (trailing space dropped) and marked with `…`.
pub open spec fn truncated(s: Seq<char>, max: nat) -> Seq<char> {
    let t = trim(s);
    if t.len() <= max {
        t
    } else {
        trim_end(t.take(if max == 0 { 0 } else { max - 1 })).push('…')
    }
}

proof fn lemma_trim_end_shorter(s: Seq<char>)
    ensures
        trim_end(s).len() <= s.len(),
    decreases s.len(),
{
    if s.len() > 0 && crate::text::is_ws(s.last()) {
        lemma_trim_end_shorter(s.drop_last());
    }
}

/// A cut summary is at most `max` characters long, its mark included,
/// whenever `max` leaves room for the mark.
pub proof fn law_truncated_fits(s: Seq<char>, max: nat)
    requires
        max >= 1,
    ensures
        truncated(s, max).len() <= max,
        trim(s).len() <= max ==> truncated(s, max) == trim(s),
        trim(s).len() > max ==> truncated(s, max).last() == '…',
{
    let t = trim(s);
    if t.len() > max {
        lemma_trim_end_shorter(t.take(max - 1));
    }
}

/// Cuts `value` to at most `max_chars` characters, marking the cut.
pub fn truncate(value: &str, max_chars: usize) -> (r: String)
    ensures
        r@ == truncated(value@, max_chars as nat),
{
    let c = chars_of(value);
    let t = trim_exec(c.as_slice());
    if t.len() <= max_chars {
        return string_of(t.as_slice());
    }
    let n: usize = if max_chars == 0 {
        0
    } else {
        max_chars - 1
    };
    let cut = slice_vec(t.as_slice(), 0, n);
    let mut out = trim_end_exec(cut.as_slice());
    assert(cut@ =~= t@.take(n as int));
    out.push('…');
    string_of(out.as_slice())
}

/// The first `# Title` of a document, trimmed.
pub fn first_heading(content: &str) -> (r: Option<String>)
    ensures
        r.deep_view() == first_heading_of(content@),
{
    let c = chars_of(content);
    let ls = lines_exec(c.as_slice());
    let ghost lv = ls.deep_view();
    let ghost f = |l: Seq<char>| h1_of(l);
    let hash = chars_of("# ");
    let mut i: usize = 0;
    assert(lv.skip(0) =~= lv);
    assert(first_heading_of(content@) == first_map(lv, f)) by {
        assert(f =~= |l: Seq<char>| h1_of(l));
    }
    while i < ls.len()
        invariant
            lv == ls.deep_view(),
            i <= lv.len(),
            f == (|l: Seq<char>| h1_of(l)),
            first_heading_of(content@) == first_map(lv, f),
            hash@ == "# "@,
            first_map(lv, f) == first_map(lv.skip(i as int), f),
        decreases lv.len() - i,
    {
        proof {
            lemma_char_deep_view(ls@[i as int]);
        }
        assert(lv.skip(i as int)[0] == lv[i as int]);
        assert(lv.skip(i as int).drop_first() =~= lv.skip(i + 1));
        let t = trim_exec(ls[i].as_slice());
        if let Some(title) = strip_prefix_exec(t.as_slice(), hash.as_slice()) {
            let tt = trim_exec(title.as_slice());
            assert(h1_of(lv[i as int]) == Some(tt@));
            assert(f(lv.skip(i as int)[0]) == Some(tt@));
            return Some(string_of(tt.as_slice()));
        }
        assert(h1_of(lv[i as int]) is None);
        assert(f(lv.skip(i as int)[0]) is None);
        i += 1;
    }
    None
}

/// The `## ` headings of a document, trimmed, at most `HEADINGS_LIMIT`.
pub fn section_headings(content: &str) -> (r: Vec<String>)
    ensures
        r.deep_view() == headings_of(content@),
{
    let c = chars_of(content);
    let ls = lines_exec(c.as_slice());
    let ghost lv = ls.deep_view();
    let ghost f = |l: Seq<char>| h2_of(l);
    let hash = chars_of("## ");
    let mut out: Vec<String> = Vec::new();
    let mut i: usize = 0;
    while i < ls.len()
        invariant
            lv == ls.deep_view(),
            i <= lv.len(),
            f == (|l: Seq<char>| h2_of(l)),
            hash@ == "## "@,
            out.deep_view() == cap(lv.take(i as int).filter_map(f), HEADINGS_LIMIT as nat),
        decreases lv.len() - i,
    {
        proof {
            lemma_char_deep_view(ls@[i as int]);
        }
        assert(lv.take(i + 1).drop_last() =~= lv.take(i as int));
        let ghost before = lv.take(i as int).filter_map(f);
        let t = trim_exec(ls[i].as_slice());
        if let Some(h) = strip_prefix_exec(t.as_slice(), hash.as_slice()) {
            let ghost o0 = out.deep_view();
            if out.len() < HEADINGS_LIMIT {
                let hh = trim_exec(h.as_slice());
                out.push(string_of(hh.as_slice()));
                assert(out.deep_view() =~= o0.push(hh@));
            }
            assert(out.deep_view() =~= cap(lv.take(i + 1).filter_map(f), HEADINGS_LIMIT as nat));
        }
        i += 1;
    }
    assert(lv.take(lv.len() as int) =~= lv);
    out
}

/// The first line of prose under a `## name` heading, scanning `ls` with
/// `in_section` telling whether the scan is inside that section.
pub open spec fn section_scan(ls: Seq<Seq<char>>, name: Seq<char>, in_section: bool) -> Option<
    Seq<char>,
>
    decreases ls.len(),
{
    if ls.len() == 0 {
        None
    } else {
        let t = trim(ls[0]);
        match h2_of(ls[0]) {
            Some(h) => section_scan(ls.drop_first(), name, eq_ignore_case(h, name)),
            None => if in_section && t.len() > 0 && !starts_with(t, "#"@) {
                Some(truncated(t, SUMMARY_CHARS as nat))
            } else {
                section_scan(ls.drop_first(), name, in_section)
            },
        }
    }
}

/// The first non-empty line under a `## <name>` heading (the name matched
/// without regard to ASCII case), cut to `SUMMARY_CHARS`.
pub fn section_first_line(content: &str, name: &str) -> (r: Option<String>)
    ensures
        r.deep_view() == section_scan(lines(content@), name@, false),
{
    let c = chars_of(content);
    let ls = lines_exec(c.as_slice());
    let ghost lv = ls.deep_view();
    let hash2 = chars_of("## ");
    let hash = chars_of("#");
    let want = ascii_lower_exec(chars_of(name).as_slice());
    let mut in_section = false;
    let mut i: usize = 0;
    assert(lv.skip(0) =~= lv);
    while i < ls.len()
        invariant
            lv == ls.deep_view(),
            i <= lv.len(),
            lv == lines(content@),
            hash2@ == "## "@,
            hash@ == "#"@,
            want@ == ascii_lower(name@),
            section_scan(lv, name@, false) == section_scan(lv.skip(i as int), name@, in_section),
        decreases lv.len() - i,
    {
        proof {
            lemma_char_deep_view(ls@[i as int]);
        }
        assert(lv.skip(i as int)[0] == lv[i as int]);
        assert(lv.skip(i as int).drop_first() =~= lv.skip(i + 1));
        let t = trim_exec(ls[i].as_slice());
        if let Some(h) = strip_prefix_exec(t.as_slice(), hash2.as_slice()) {
            let hh = trim_exec(h.as_slice());
            let lower = ascii_lower_exec(hh.as_slice());
            in_section = chars_eq(lower.as_slice(), want.as_slice());
        } else if in_section && t.len() > 0 && !starts_with_exec(t.as_slice(), hash.as_slice()) {
            assert(h2_of(lv[i as int]) is None);
            return Some(truncate(string_of(t.as_slice()).as_str(), SUMMARY_CHARS));
        } else {
            assert(h2_of(lv[i as int]) is None);
        }
        i += 1;
    }
    None
}

/// A line that does not start prose: a heading, a badge, HTML or an image.
pub open spec fn is_decoration(t: Seq<char>) -> bool {
    starts_with(t, "#"@) || starts_with(t, "[!["@) || starts_with(t, "<"@) || starts_with(t, "!["@)
}

/// The lines of the first prose paragraph, scanning `ls` after `para` was
/// gathered, `in_fence` telling whether the scan is inside a code fence.
pub open spec fn paragraph_scan(ls: Seq<Seq<char>>, in_fence: bool, para: Seq<Seq<char>>) -> Seq<
    Seq<char>,
>
    decreases ls.len(),
{
    if ls.len() == 0 {
        para
    } else {
        let t = trim(ls[0]);
        if starts_with(t, "```"@) {
            paragraph_scan(ls.drop_first(), !in_fence, para)
        } else if in_fence {
            paragraph_scan(ls.drop_first(), in_fence, para)
        } else if t.len() == 0 || is_decoration(t) {
            if para.len() > 0 {
                para
            } else {
                paragraph_scan(ls.drop_first(), in_fence, para)
            }
        } else {
            paragraph_scan(ls.drop_first(), in_fence, para.push(t))
        }
    }
}

/// The first prose paragraph of a document, its lines trimmed and joined
/// by spaces: headings, badges, HTML, images, blank lines and code fences
/// are skipped.
pub open spec fn first_paragraph_of(content: Seq<char>) -> Option<Seq<char>> {
    let p = paragraph_scan(lines(content), false, Seq::empty());
    if p.len() == 0 {
        None
    } else {
        Some(join(p, " "@))
    }
}

fn is_decoration_exec(t: &[char]) -> (r: bool)
    ensures
        r == is_decoration(t@),
{
    starts_with_exec(t, chars_of("#").as_slice()) || starts_with_exec(t, chars_of("[![").as_slice())
        || starts_with_exec(t, chars_of("<").as_slice()) || starts_with_exec(
        t,
        chars_of("![").as_slice(),
    )
}

/// The first prose paragraph of a document.
pub fn first_paragraph(content: &str) -> (r: Option<String>)
    ensures
        r.deep_view() == first_paragraph_of(content@),
{
    let c = chars_of(content);
    let ls = lines_exec(c.as_slice());
    let ghost lv = ls.deep_view();
    let fence = chars_of("```");
    let mut para: Vec<Vec<char>> = Vec::new();
    let mut in_fence = false;
    let mut i: usize = 0;
    assert(lv.skip(0) =~= lv);
    assert(para.deep_view() =~= Seq::<Seq<char>>::empty());
    while i < ls.len()
        invariant
            lv == ls.deep_view(),
            i <= lv.len(),
            fence@ == "```"@,
            paragraph_scan(lv, false, Seq::empty()) == paragraph_scan(
                lv.skip(i as int),
                in_fence,
                para.deep_view(),
            ),
        ensures
            paragraph_scan(lv, false, Seq::empty()) == para.deep_view(),
        decreases lv.len() - i,
    {
        proof {
            lemma_char_deep_view(ls@[i as int]);
        }
        assert(lv.skip(i as int)[0] == lv[i as int]);
        assert(lv.skip(i as int).drop_first() =~= lv.skip(i + 1));
        let t = trim_exec(ls[i].as_slice());
        if starts_with_exec(t.as_slice(), fence.as_slice()) {
            in_fence = !in_fence;
        } else if in_fence {
        } else if t.len() == 0 || is_decoration_exec(t.as_slice()) {
            if para.len() > 0 {
                break;
            }
        } else {
            let ghost p0 = para.deep_view();
            proof {
                lemma_char_deep_view(t);
            }
            para.push(t);
            assert(para.deep_view() =~= p0.push(t@));
        }
        i += 1;
    }
    if para.len() == 0 {
        None
    } else {
        let sep = chars_of(" ");
        let j = join_exec(&para, sep.as_slice());
        Some(string_of(j.as_slice()))
    }
}

// ---------------------------------------------------------------------------
// TODO markers
// ---------------------------------------------------------------------------

/// `m` occurs in `line` at `i` as a word of its own: no ASCII letter or
/// digit right before or right after it.
pub open spec fn marker_at(line: Seq<char>, m: Seq<char>, i: int) -> bool {
    &&& occurs_at(line, m, i)
    &&& (i == 0 || !is_alnum(line[i - 1]))
    &&& (i + m.len() == line.len() || !is_alnum(line[i + m.len()]))
}

/// `m` occurs in `line` as a word of its own.
pub open spec fn has_marker(line: Seq<char>, m: Seq<char>) -> bool {
    exists|i: int| marker_at(line, m, i)
}

/// A line with a `TODO`, `FIXME`, `HACK` or `XXX` marker.
pub open spec fn is_todo_line(line: Seq<char>) -> bool {
    has_marker(line, "TODO"@) || has_marker(line, "FIXME"@) || has_marker(line, "HACK"@)
        || has_marker(line, "XXX"@)
}

/// The number of lines of `content` with a marker.
pub open spec fn marker_count(content: Seq<char>) -> nat {
    lines(content).filter(|l: Seq<char>| is_todo_line(l)).len()
}

fn has_marker_exec(line: &[char], m: &[char]) -> (r: bool)
    requires
        m@.len() > 0,
    ensures
        r == has_marker(line@, m@),
{
    if m.len() > line.len() {
        assert forall|i: int| !marker_at(line@, m@, i) by {}
        return false;
    }
    let last = line.len() - m.len();
    let mut i: usize = 0;
    while i <= last
        invariant
            last + m@.len() == line@.len(),
            m@.len() > 0,
            line@.len() == line.len(),
            i <= last + 1,
            forall|j: int| 0 <= j < i ==> !marker_at(line@, m@, j),
        decreases last + 1 - i,
    {
        if occurs_at_exec(line, m, i) {
            let before_ok = i == 0 || !is_alnum_exec(line[i - 1]);
            let after_ok = i + m.len() == line.len() || !is_alnum_exec(line[i + m.len()]);
            if before_ok && after_ok {
                assert(marker_at(line@, m@, i as int));
                return true;
            }
        }
        i += 1;
    }
    assert forall|j: int| !marker_at(line@, m@, j) by {
        if j > last {
            assert(!occurs_at(line@, m@, j));
        }
    }
    false
}

fn is_todo_line_exec(line: &[char]) -> (r: bool)
    ensures
        r == is_todo_line(line@),
{
    proof {
        reveal_strlit("TODO");
        reveal_strlit("FIXME");
        reveal_strlit("HACK");
        reveal_strlit("XXX");
    }
    has_marker_exec(line, chars_of("TODO").as_slice()) || has_marker_exec(
        line,
        chars_of("FIXME").as_slice(),
    ) || has_marker_exec(line, chars_of("HACK").as_slice()) || has_marker_exec(
        line,
        chars_of("XXX").as_slice(),
    )
}

/// The number of lines with a `TODO`, `FIXME`, `HACK` or `XXX` marker that
/// stands as a word of its own.
pub fn count_markers(content: &str) -> (r: usize)
    ensures
        r == marker_count(content@),
{
    let c = chars_of(content);
    let ls = lines_exec(c.as_slice());
    let ghost lv = ls.deep_view();
    let ghost p = |l: Seq<char>| is_todo_line(l);
    let mut n: usize = 0;
    let mut i: usize = 0;
    while i < ls.len()
        invariant
            lv == ls.deep_view(),
            i <= lv.len(),
            p == (|l: Seq<char>| is_todo_line(l)),
            n == lv.take(i as int).filter(p).len(),
            n <= i,
        decreases lv.len() - i,
    {
        proof {
            lemma_char_deep_view(ls@[i as int]);
        }
        assert(lv.take(i + 1).drop_last() =~= lv.take(i as int));
        assert(lv.take(i + 1).last() == lv[i as int]);
        let hit = is_todo_line_exec(ls[i].as_slice());
        assert(p(lv[i as int]) == hit);
        proof {
            reveal(Seq::filter);
        }
        if hit {
            assert(lv.take(i + 1).filter(p) == lv.take(i as int).filter(p).push(lv[i as int]));
            n += 1;
        } else {
            assert(lv.take(i + 1).filter(p) == lv.take(i as int).filter(p));
        }
        i += 1;
    }
    assert(lv.take(lv.len() as int) =~= lv);
    assert(marker_count(content@) == lv.filter(p).len()) by {
        assert(p =~= |l: Seq<char>| is_todo_line(l));
    }
    n
}

/// The position of the last `c` in `s`.
pub open spec fn rfind_char(s: Seq<char>, c: char) -> Option<int>
    decreases s.len(),
{
    if s.len() == 0 {
        None
    } else if s.last() == c {
        Some(s.len() - 1)
    } else {
        rfind_char(s.drop_last(), c)
    }
}

/// The extension of a file name (`Path::extension`): what follows its last
/// dot, unless the only dot begins the name.
pub open spec fn extension(name: Seq<char>) -> Option<Seq<char>> {
    if name == ".."@ {
        None
    } else {
        match rfind_char(name, '.') {
            None => None,
            Some(i) => if i == 0 {
                None
            } else {
                Some(name.skip(i + 1))
            },
        }
    }
}

/// The extensions of the files the TODO walk reads.
pub open spec fn source_extensions() -> Seq<Seq<char>> {
    seq![
        "rs"@, "toml"@, "ts"@, "tsx"@, "js"@, "jsx"@, "mjs"@, "cjs"@, "svelte"@, "vue"@, "py"@,
        "go"@, "cs"@, "c"@, "cc"@, "cpp"@, "h"@, "hpp"@, "java"@, "kt"@, "swift"@, "rb"@, "sh"@,
        "bash"@, "zsh"@, "md"@, "yaml"@, "yml"@, "css"@, "scss"@, "html"@, "sql"@, "shader"@,
        "hlsl"@, "glsl"@,
    ]
}

/// A source-like file: a known extension (in any ASCII case), or with no
/// extension a `Makefile`, `justfile` or `Dockerfile`.
pub open spec fn source_like(name: Seq<char>) -> bool {
    match extension(name) {
        None => name == "Makefile"@ || name == "justfile"@ || name == "Dockerfile"@,
        Some(e) => source_extensions().contains(ascii_lower(e)),
    }
}

fn rfind_char_exec(s: &[char], c: char) -> (r: Option<usize>)
    ensures
        match r {
            Some(i) => rfind_char(s@, c) == Some(i as int) && i < s@.len(),
            None => rfind_char(s@, c) is None,
        },
{
    let mut k: usize = s.len();
    assert(s@.take(k as int) =~= s@);
    while k > 0
        invariant
            k <= s@.len(),
            rfind_char(s@, c) == rfind_char(s@.take(k as int), c),
        decreases k,
    {
        assert(s@.take(k as int).drop_last() =~= s@.take(k - 1));
        if s[k - 1] == c {
            return Some(k - 1);
        }
        k -= 1;
    }
    None
}

/// The extension of a file name (`Path::extension`).

pub fn extension_exec(name: &[char]) -> (r: Option<Vec<char>>)
    ensures
        match r {
            Some(e) => extension(name@) == Some(e@),
            None => extension(name@) is None,
        },
{
    if chars_eq(name, chars_of("..").as_slice()) {
        return None;
    }
    match rfind_char_exec(name, '.') {
        None => None,
        Some(i) => if i == 0 {
            None
        } else {
            let len = name.len();
            let e = slice_vec(name, i + 1, len);
            assert(e@ =~= name@.skip(i + 1));
            Some(e)
        },
    }
}

/// Is this file name one the TODO walk reads?
pub fn is_source_like(name: &str) -> (r: bool)
    ensures
        r == source_like(name@),
{
    let n = chars_of(name);
    match extension_exec(n.as_slice()) {
        None => str_in(name, "Makefile") || str_in(name, "justfile") || str_in(name, "Dockerfile"),
        Some(e) => {
            let lower = ascii_lower_exec(e.as_slice());
            let exts: Vec<&str> = vec![
                "rs", "toml", "ts", "tsx", "js", "jsx", "mjs", "cjs", "svelte", "vue", "py", "go",
                "cs", "c", "cc", "cpp", "h", "hpp", "java", "kt", "swift", "rb", "sh", "bash",
                "zsh", "md", "yaml", "yml", "css", "scss", "html", "sql", "shader", "hlsl", "glsl",
            ];
            let ghost ev = exts@.map_values(|s: &str| s@);
            assert(ev =~= source_extensions());
            let mut i: usize = 0;
            while i < exts.len()
                invariant
                    ev == exts@.map_values(|s: &str| s@),
                    ev == source_extensions(),
                    extension(name@) == Some(e@),
                    lower@ == ascii_lower(e@),
                    i <= exts@.len(),
                    forall|j: int| 0 <= j < i ==> ev[j] != lower@,
                decreases exts@.len() - i,
            {
                if chars_eq(lower.as_slice(), chars_of(exts[i]).as_slice()) {
                    assert(ev[i as int] == lower@);
                    return true;
                }
                i += 1;
            }
            false
        },
    }
}

fn str_in(a: &str, b: &str) -> (r: bool)
    ensures
        r == (a@ == b@),
{
    crate::text::str_eq(a, b)
}

/// The Unity editor version of a `ProjectVersion.txt`: the rest of its
/// first `m_EditorVersion:` line, trimmed.
pub open spec fn unity_version_of(content: Seq<char>) -> Option<Seq<char>> {
    first_map(
        lines(content),
        |l: Seq<char>|
            if starts_with(l, "m_EditorVersion:"@) {
                Some(trim(l.skip("m_EditorVersion:"@.len() as int)))
            } else {
                None
            },
    )
}

/// The Unity editor version named in a `ProjectVersion.txt`.
pub fn unity_version(content: &str) -> (r: Option<String>)
    ensures
        r.deep_view() == unity_version_of(content@),
{
    let c = chars_of(content);
    let ls = lines_exec(c.as_slice());
    let ghost lv = ls.deep_view();
    let ghost f = |l: Seq<char>|
        if starts_with(l, "m_EditorVersion:"@) {
            Some(trim(l.skip("m_EditorVersion:"@.len() as int)))
        } else {
            None
        };
    let key = chars_of("m_EditorVersion:");
    let mut i: usize = 0;
    assert(lv.skip(0) =~= lv);
    assert(unity_version_of(content@) == first_map(lv, f)) by {
        assert(f =~= |l: Seq<char>|
            if starts_with(l, "m_EditorVersion:"@) {
                Some(trim(l.skip("m_EditorVersion:"@.len() as int)))
            } else {
                None
            });
    }
    while i < ls.len()
        invariant
            lv == ls.deep_view(),
            i <= lv.len(),
            key@ == "m_EditorVersion:"@,
            f == (|l: Seq<char>|
                if starts_with(l, "m_EditorVersion:"@) {
                    Some(trim(l.skip("m_EditorVersion:"@.len() as int)))
                } else {
                    None
                }),
            unity_version_of(content@) == first_map(lv, f),
            first_map(lv, f) == first_map(lv.skip(i as int), f),
        decreases lv.len() - i,
    {
        proof {
            lemma_char_deep_view(ls@[i as int]);
        }
        assert(lv.skip(i as int)[0] == lv[i as int]);
        assert(lv.skip(i as int).drop_first() =~= lv.skip(i + 1));
        if let Some(rest) = strip_prefix_exec(ls[i].as_slice(), key.as_slice()) {
            let v = trim_exec(rest.as_slice());
            assert(f(lv.skip(i as int)[0]) == Some(v@));
            return Some(string_of(v.as_slice()));
        }
        assert(f(lv.skip(i as int)[0]) is None);
        i += 1;
    }
    None
}

// ---------------------------------------------------------------------------
// Documents
// ---------------------------------------------------------------------------

/// PROJECT.md front matter.
pub struct ProjectDoc {
    pub path: String,
    pub title: Option<String>,
    pub what: Option<String>,
    pub status: Option<String>,
    pub tech: Option<String>,
    pub last_updated: Option<String>,
    pub headings: Vec<String>,
}

/// The view of a `ProjectDoc`.


pub struct ProjectDocView {
    pub path: Seq<char>,
    pub title: Option<Seq<char>>,
    pub what: Option<Seq<char>>,
    pub status: Option<Seq<char>>,
    pub tech: Option<Seq<char>>,
    pub last_updated: Option<Seq<char>>,
    pub headings: Seq<Seq<char>>,
}

impl View for ProjectDoc {
    type V = ProjectDocView;

    open spec fn view(&self) -> ProjectDocView {
        ProjectDocView {
            path: self.path@,
            title: self.title.deep_view(),
            what: self.what.deep_view(),
            status: self.status.deep_view(),
            tech: self.tech.deep_view(),
            last_updated: self.last_updated.deep_view(),
            headings: self.headings.deep_view(),
        }
    }
}

/// README front matter.
pub struct ReadmeDoc {
    pub path: String,
    pub title: Option<String>,
    pub summary: Option<String>,
    pub headings: Vec<String>,
}

/// The view of a `ReadmeDoc`.


pub struct ReadmeDocView {
    pub path: Seq<char>,
    pub title: Option<Seq<char>>,
    pub summary: Option<Seq<char>>,
    pub headings: Seq<Seq<char>>,
}

impl View for ReadmeDoc {
    type V = ReadmeDocView;

    open spec fn view(&self) -> ReadmeDocView {
        ReadmeDocView {
            path: self.path@,
            title: self.title.deep_view(),
            summary: self.summary.deep_view(),
            headings: self.headings.deep_view(),
        }
    }
}

/// The documents of a repository that the brief points to.
pub struct DocsBrief {
    pub project_md: Option<ProjectDoc>,
    pub readme: Option<ReadmeDoc>,
    pub other: Vec<String>,
}

/// The view of a `DocsBrief`.


pub struct DocsView {
    pub project_md: Option<ProjectDocView>,
    pub readme: Option<ReadmeDocView>,
    pub other: Seq<Seq<char>>,
}

impl View for DocsBrief {
    type V = DocsView;

    open spec fn view(&self) -> DocsView {
        DocsView {
            project_md: match &self.project_md {
                Some(d) => Some(d@),
                None => None,
            },
            readme: match &self.readme {
                Some(d) => Some(d@),
                None => None,
            },
            other: self.other.deep_view(),
        }
    }
}

/// The value of a `**Label:** value` line whose label, in lower case, is
/// one of `names`, cut to `SUMMARY_CHARS`.
pub open spec fn labelled(line: Seq<char>, names: Seq<Seq<char>>) -> Option<Seq<char>> {
    match bold_label(line) {
        Some((label, value)) => if names.contains(ascii_lower(label)) {
            Some(truncated(value, SUMMARY_CHARS as nat))
        } else {
            None
        },
        None => None,
    }
}

/// The first labelled value of a document under one of `names`.
pub open spec fn field_of(content: Seq<char>, names: Seq<Seq<char>>) -> Option<Seq<char>> {
    first_map(lines(content), |l: Seq<char>| labelled(l, names))
}

pub open spec fn what_labels() -> Seq<Seq<char>> {
    seq!["what"@, "purpose"@]
}

pub open spec fn status_labels() -> Seq<Seq<char>> {
    seq!["status"@]
}

pub open spec fn tech_labels() -> Seq<Seq<char>> {
    seq!["tech"@, "stack"@]
}

/// What the brief reads from a PROJECT.md.
pub open spec fn project_doc_of(content: Seq<char>) -> ProjectDocView {
    ProjectDocView {
        path: "PROJECT.md"@,
        title: first_heading_of(content),
        what: field_of(content, what_labels()),
        status: field_of(content, status_labels()),
        tech: field_of(content, tech_labels()),
        last_updated: section_scan(lines(content), "last updated"@, false),
        headings: headings_of(content),
    }
}

/// What the brief reads from a README.
pub open spec fn readme_doc_of(content: Seq<char>) -> ReadmeDocView {
    ReadmeDocView {
        path: "README.md"@,
        title: first_heading_of(content),
        summary: match first_paragraph_of(content) {
            Some(p) => Some(truncated(p, SUMMARY_CHARS as nat)),
            None => None,
        },
        headings: headings_of(content),
    }
}

/// One of the labels, with its lower-case form already computed.
fn among(lower: &[char], names: &Vec<&str>) -> (r: bool)
    ensures
        r == names@.map_values(|s: &str| s@).contains(lower@),
{
    let ghost nv = names@.map_values(|s: &str| s@);
    let mut i: usize = 0;
    while i < names.len()
        invariant
            nv == names@.map_values(|s: &str| s@),
            i <= names@.len(),
            forall|j: int| 0 <= j < i ==> nv[j] != lower@,
        decreases names@.len() - i,
    {
        if chars_eq(lower, chars_of(names[i]).as_slice()) {
            assert(nv[i as int] == lower@);
            return true;
        }
        i += 1;
    }
    false
}

/// Reads the front matter of a PROJECT.md: its title, its `What`/`Purpose`,
/// `Status` and `Tech`/`Stack` labels, the first line under `## Last
/// updated`, and its section headings.
pub fn parse_project_md(content: &str) -> (r: ProjectDoc)
    ensures
        r@ == project_doc_of(content@),
{
    let c = chars_of(content);
    let ls = lines_exec(c.as_slice());
    let ghost lv = ls.deep_view();
    let what_names: Vec<&str> = vec!["what", "purpose"];
    let status_names: Vec<&str> = vec!["status"];
    let tech_names: Vec<&str> = vec!["tech", "stack"];
    let ghost fw = |l: Seq<char>| labelled(l, what_labels());
    let ghost fs = |l: Seq<char>| labelled(l, status_labels());
    let ghost ft = |l: Seq<char>| labelled(l, tech_labels());
    assert(what_names@.map_values(|s: &str| s@) =~= what_labels());
    assert(status_names@.map_values(|s: &str| s@) =~= status_labels());
    assert(tech_names@.map_values(|s: &str| s@) =~= tech_labels());
    let mut what: Option<String> = None;
    let mut status: Option<String> = None;
    let mut tech: Option<String> = None;
    let mut i: usize = 0;
    while i < ls.len()
        invariant
            lv == ls.deep_view(),
            i <= lv.len(),
            what_names@.map_values(|s: &str| s@) == what_labels(),
            status_names@.map_values(|s: &str| s@) == status_labels(),
            tech_names@.map_values(|s: &str| s@) == tech_labels(),
            fw == (|l: Seq<char>| labelled(l, what_labels())),
            fs == (|l: Seq<char>| labelled(l, status_labels())),
            ft == (|l: Seq<char>| labelled(l, tech_labels())),
            what.deep_view() == first_map(lv.take(i as int), fw),
            status.deep_view() == first_map(lv.take(i as int), fs),
            tech.deep_view() == first_map(lv.take(i as int), ft),
        decreases lv.len() - i,
    {
        proof {
            lemma_char_deep_view(ls@[i as int]);
            crate::seq_facts::lemma_first_map_push(lv.take(i as int), lv[i as int], fw);
            crate::seq_facts::lemma_first_map_push(lv.take(i as int), lv[i as int], fs);
            crate::seq_facts::lemma_first_map_push(lv.take(i as int), lv[i as int], ft);
        }
        assert(lv.take(i + 1) =~= lv.take(i as int).push(lv[i as int]));
        let line = string_of(ls[i].as_slice());
        match parse_bold_label(line.as_str()) {
            Some((label, value)) => {
                let lower = ascii_lower_exec(chars_of(label.as_str()).as_slice());
                if what.is_none() && among(lower.as_slice(), &what_names) {
                    what = Some(truncate(value.as_str(), SUMMARY_CHARS));
                }
                if status.is_none() && among(lower.as_slice(), &status_names) {
                    status = Some(truncate(value.as_str(), SUMMARY_CHARS));
                }
                if tech.is_none() && among(lower.as_slice(), &tech_names) {
                    tech = Some(truncate(value.as_str(), SUMMARY_CHARS));
                }
            },
            None => {},
        }
        i += 1;
    }
    assert(lv.take(lv.len() as int) =~= lv);
    assert(field_of(content@, what_labels()) == first_map(lv, fw)) by {
        assert(fw =~= |l: Seq<char>| labelled(l, what_labels()));
    }
    assert(field_of(content@, status_labels()) == first_map(lv, fs)) by {
        assert(fs =~= |l: Seq<char>| labelled(l, status_labels()));
    }
    assert(field_of(content@, tech_labels()) == first_map(lv, ft)) by {
        assert(ft =~= |l: Seq<char>| labelled(l, tech_labels()));
    }
    ProjectDoc {
        path: crate::text::lit("PROJECT.md"),
        title: first_heading(content),
        what,
        status,
        tech,
        last_updated: section_first_line(content, "last updated"),
        headings: section_headings(content),
    }
}

/// Reads the front matter of a README: its title, its first paragraph cut
/// to `SUMMARY_CHARS`, and its section headings.
pub fn parse_readme(content: &str) -> (r: ReadmeDoc)
    ensures
        r@ == readme_doc_of(content@),
{
    let summary = match first_paragraph(content) {
        Some(p) => Some(truncate(p.as_str(), SUMMARY_CHARS)),
        None => None,
    };
    ReadmeDoc {
        path: crate::text::lit("README.md"),
        title: first_heading(content),
        summary,
        headings: section_headings(content),
    }
}

/// The entries of `names` among the first `n` whose flag in `present` is set,
/// in order.
pub open spec fn pick(names: Seq<Seq<char>>, present: Seq<bool>, n: nat) -> Seq<Seq<char>>
    decreases n,
{
    if n == 0 {
        Seq::empty()
    } else {
        let rest = pick(names, present, (n - 1) as nat);
        if present[n - 1] {
            rest.push(names[n - 1])
        } else {
            rest
        }
    }
}

fn pick_exec(names: &Vec<String>, present: &Vec<bool>) -> (r: Vec<String>)
    requires
        present@.len() == names@.len(),
    ensures
        r.deep_view() == pick(names.deep_view(), present@, names@.len()),
{
    let ghost nv = names.deep_view();
    let mut out: Vec<String> = Vec::new();
    let mut i: usize = 0;
    while i < names.len()
        invariant
            nv == names.deep_view(),
            present@.len() == names@.len(),
            i <= names@.len(),
            out.deep_view() == pick(nv, present@, i as nat),
        decreases names@.len() - i,
    {
        if present[i] {
            let ghost o0 = out.deep_view();
            out.push(names[i].clone());
            assert(out.deep_view() =~= o0.push(nv[i as int]));
        }
        i += 1;
    }
    out
}

fn strings(v: Vec<&str>) -> (r: Vec<String>)
    ensures
        r.deep_view() == v@.map_values(|s: &str| s@),
{
    let mut out: Vec<String> = Vec::new();
    let mut i: usize = 0;
    while i < v.len()
        invariant
            i <= v@.len(),
            out.deep_view() == v@.take(i as int).map_values(|s: &str| s@),
        decreases v@.len() - i,
    {
        let ghost o0 = out.deep_view();
        let x = crate::text::lit(v[i]);
        out.push(x);
        assert(out.deep_view() =~= o0.push(v@[i as int]@));
        assert(v@.take(i + 1).map_values(|s: &str| s@) =~= v@.take(i as int).map_values(|s: &str| s@).push(
            v@[i as int]@,
        ));
        i += 1;
    }
    assert(v@.take(v@.len() as int) =~= v@);
    out
}

/// The other documents the brief points to when they exist.
pub open spec fn doc_candidates_spec() -> Seq<Seq<char>> {
    seq!["AGENTS.md"@, "docs/"@, "CHANGELOG.md"@, "CONTRIBUTING.md"@, ".agent-contract.toml"@]
}

/// The other documents the brief points to when they exist, as paths
/// relative to the repository.
pub fn doc_candidates() -> (r: Vec<String>)
    ensures
        r.deep_view() == doc_candidates_spec(),
{
    let v: Vec<&str> = vec![
        "AGENTS.md",
        "docs/",
        "CHANGELOG.md",
        "CONTRIBUTING.md",
        ".agent-contract.toml",
    ];
    let r = strings(v);
    assert(r.deep_view() =~= doc_candidates_spec());
    r
}

/// The documents part of the brief, from the contents of PROJECT.md and
/// README.md where they could be read, and which of `doc_candidates`
/// exist.
pub fn gather_docs(project_md: Option<String>, readme: Option<String>, present: &Vec<bool>) -> (r:
    DocsBrief)
    requires
        present@.len() == doc_candidates_spec().len(),
    ensures
        r@.project_md == match project_md {
            Some(c) => Some(project_doc_of(c@)),
            None => None,
        },
        r@.readme == match readme {
            Some(c) => Some(readme_doc_of(c@)),
            None => None,
        },
        r@.other == pick(doc_candidates_spec(), present@, doc_candidates_spec().len()),
{
    let project_md = match project_md {
        Some(c) => Some(parse_project_md(c.as_str())),
        None => None,
    };
    let readme = match readme {
        Some(c) => Some(parse_readme(c.as_str())),
        None => None,
    };
    let names = doc_candidates();
    let other = pick_exec(&names, present);
    DocsBrief { project_md, readme, other }
}

// ---------------------------------------------------------------------------
// Markers
// ---------------------------------------------------------------------------

/// The paths whose presence marks something an agent should know that the
/// scan does not treat as a stack.
pub open spec fn marker_paths_spec() -> Seq<Seq<char>> {
    seq![
        "ProjectSettings/ProjectVersion.txt"@, "Makefile"@, "justfile"@, "Dockerfile"@,
        "docker-compose.yml"@, "CMakeLists.txt"@, "flake.nix"@, "Gemfile"@, ".github/workflows"@,
    ]
}

/// What each marker path is called.
pub open spec fn marker_labels_spec() -> Seq<Seq<char>> {
    seq![
        "Unity project"@, "Makefile"@, "justfile"@, "Dockerfile"@, "docker-compose"@, "CMake"@,
        "Nix flake"@, "Ruby bundle"@, "GitHub workflows"@,
    ]
}

/// `label (path)` for each marker.
pub open spec fn marker_entries() -> Seq<Seq<char>> {
    Seq::new(
        9,
        |i: int| marker_labels_spec()[i] + " ("@ + marker_paths_spec()[i] + ")"@,
    )
}

/// The markers present, `label (path)` each; a Unity project with a known
/// editor version reads `Unity <version> (ProjectSettings/ProjectVersion.txt)`.
pub open spec fn markers_of(present: Seq<bool>, unity: Option<Seq<char>>) -> Seq<Seq<char>> {
    let ms = pick(marker_entries(), present, 9);
    match unity {
        Some(v) => if ms.len() > 0 && starts_with(ms[0], "Unity project"@) {
            ms.update(0, "Unity "@ + v + " (ProjectSettings/ProjectVersion.txt)"@)
        } else {
            ms
        },
        None => ms,
    }
}

/// The marker paths, relative to the repository.
pub fn marker_paths() -> (r: Vec<String>)
    ensures
        r.deep_view() == marker_paths_spec(),
{
    let v: Vec<&str> = vec![
        "ProjectSettings/ProjectVersion.txt",
        "Makefile",
        "justfile",
        "Dockerfile",
        "docker-compose.yml",
        "CMakeLists.txt",
        "flake.nix",
        "Gemfile",
        ".github/workflows",
    ];
    let r = strings(v);
    assert(r.deep_view() =~= marker_paths_spec());
    r
}

fn marker_labels() -> (r: Vec<String>)
    ensures
        r.deep_view() == marker_labels_spec(),
{
    let v: Vec<&str> = vec![
        "Unity project",
        "Makefile",
        "justfile",
        "Dockerfile",
        "docker-compose",
        "CMake",
        "Nix flake",
        "Ruby bundle",
        "GitHub workflows",
    ];
    let r = strings(v);
    assert(r.deep_view() =~= marker_labels_spec());
    r
}

/// The markers of a repository, from which of `marker_paths` exist and the
/// Unity editor version where `ProjectVersion.txt` names one.
pub fn detect_markers(present: &Vec<bool>, unity: Option<String>) -> (r: Vec<String>)
    requires
        present@.len() == 9,
    ensures
        r.deep_view() == markers_of(present@, unity.deep_view()),
{
    let paths = marker_paths();
    let labels = marker_labels();
    assert(paths@.len() == paths.deep_view().len());
    assert(labels@.len() == labels.deep_view().len());
    let mut entries: Vec<String> = Vec::new();
    let mut i: usize = 0;
    while i < 9
        invariant
            paths.deep_view() == marker_paths_spec(),
            labels.deep_view() == marker_labels_spec(),
            paths@.len() == 9,
            labels@.len() == 9,
            i <= 9,
            entries.deep_view() == marker_entries().take(i as int),
        decreases 9 - i,
    {
        let mut e = chars_of(labels[i].as_str());
        crate::text::extend_str(&mut e, " (");
        crate::text::extend_str(&mut e, paths[i].as_str());
        crate::text::extend_str(&mut e, ")");
        let ghost o0 = entries.deep_view();
        assert(labels@[i as int]@ == marker_labels_spec()[i as int]);
        assert(paths@[i as int]@ == marker_paths_spec()[i as int]);
        assert(e@ == marker_entries()[i as int]);
        entries.push(string_of(e.as_slice()));
        assert(entries.deep_view() =~= o0.push(e@));
        assert(entries.deep_view() =~= marker_entries().take(i + 1));
        i += 1;
    }
    assert(marker_entries().take(9) =~= marker_entries());
    let mut ms = pick_exec(&entries, present);
    if let Some(v) = unity {
        if ms.len() > 0 && starts_with_exec(
            chars_of(ms[0].as_str()).as_slice(),
            chars_of("Unity project").as_slice(),
        ) {
            let mut t = chars_of("Unity ");
            crate::text::extend_str(&mut t, v.as_str());
            crate::text::extend_str(&mut t, " (ProjectSettings/ProjectVersion.txt)");
            let ghost m0 = ms.deep_view();
            ms.set(0, string_of(t.as_slice()));
            assert(ms.deep_view() =~= m0.update(0, t@));
        }
    }
    ms
}

// ---------------------------------------------------------------------------
// The TODO walk
// ---------------------------------------------------------------------------

/// A file with TODO markers.
pub struct TodoFile {
    pub path: String,
    pub count: usize,
}

/// The view of a `TodoFile`.


pub struct TodoFileView {
    pub path: Seq<char>,
    pub count: nat,
}

impl View for TodoFile {
    type V = TodoFileView;

    open spec fn view(&self) -> TodoFileView {
        TodoFileView { path: self.path@, count: self.count as nat }
    }
}

impl DeepView for TodoFile {
    type V = TodoFileView;

    open spec fn deep_view(&self) -> TodoFileView {
        self@
    }
}

/// What the TODO walk found.
pub struct TodoBrief {
    pub total: usize,
    pub files_scanned: usize,
    pub truncated: bool,
    pub top_files: Vec<TodoFile>,
}

/// `a` ranks before `b`: more markers first, then by path.
pub open spec fn todo_before(a: TodoFileView, b: TodoFileView) -> bool {
    a.count > b.count || (a.count == b.count && str_lt(a.path, b.path))
}

/// Ranked: no file ranks before one listed earlier.
pub open spec fn todo_ranked(s: Seq<TodoFileView>) -> bool {
    forall|i: int, j: int| 0 <= i < j < s.len() ==> !todo_before(#[trigger] s[j], #[trigger] s[i])
}

/// All markers of the files.
pub open spec fn todo_total(s: Seq<TodoFileView>) -> nat
    decreases s.len(),
{
    if s.len() == 0 {
        0
    } else {
        todo_total(s.drop_last()) + s.last().count
    }
}

proof fn lemma_todo_before_asym(a: TodoFileView, b: TodoFileView)
    requires
        todo_before(a, b),
    ensures
        !todo_before(b, a),
{
    if a.count == b.count {
        lemma_str_lt_asym(a.path, b.path);
    }
}

proof fn lemma_todo_before_trans(a: TodoFileView, b: TodoFileView, c: TodoFileView)
    requires
        todo_before(a, b),
        todo_before(b, c),
    ensures
        todo_before(a, c),
{
    if a.count == b.count && b.count == c.count {
        lemma_str_lt_trans(a.path, b.path, c.path);
    }
}

/// Inserting a file before the first one it ranks before keeps the list
/// ranked.
proof fn lemma_insert_ranked(s: Seq<TodoFileView>, p: int, f: TodoFileView)
    requires
        todo_ranked(s),
        0 <= p <= s.len(),
        forall|k: int| 0 <= k < p ==> !todo_before(f, #[trigger] s[k]),
        p < s.len() ==> todo_before(f, s[p]),
    ensures
        todo_ranked(s.insert(p, f)),
{
    let n = s.insert(p, f);
    assert forall|i: int, j: int| 0 <= i < j < n.len() implies !todo_before(#[trigger] n[j], #[trigger] n[i]) by {
        if j < p {
            assert(n[i] == s[i] && n[j] == s[j]);
        } else if j == p {
            assert(n[i] == s[i] && n[j] == f);
        } else if i < p {
            assert(n[i] == s[i] && n[j] == s[j - 1]);
        } else if i == p {
            assert(n[i] == f && n[j] == s[j - 1]);
            if todo_before(s[j - 1], f) {
                lemma_todo_before_trans(s[j - 1], f, s[p]);
                if j - 1 == p {
                    lemma_todo_before_asym(s[p], s[p]);
                }
            }
        } else {
            assert(n[i] == s[i - 1] && n[j] == s[j - 1]);
        }
    }
}

proof fn lemma_todo_total_prefix(s: Seq<TodoFileView>, i: int)
    requires
        0 <= i <= s.len(),
    ensures
        todo_total(s.take(i)) <= todo_total(s),
    decreases s.len(),
{
    if i < s.len() {
        assert(s.drop_last().take(i) =~= s.take(i));
        lemma_todo_total_prefix(s.drop_last(), i);
    } else {
        assert(s.take(i) =~= s);
    }
}

fn todo_before_exec(a: &TodoFile, b: &TodoFile) -> (r: bool)
    ensures
        r == todo_before(a@, b@),
{
    a.count > b.count || (a.count == b.count && str_lt_exec(
        chars_of(a.path.as_str()).as_slice(),
        chars_of(b.path.as_str()).as_slice(),
    ))
}

fn copy_todo(f: &TodoFile) -> (r: TodoFile)
    ensures
        r@ == f@,
{
    TodoFile { path: f.path.clone(), count: f.count }
}

/// The files ranked: most markers first, then by path.
fn rank_todos(files: &Vec<TodoFile>) -> (r: Vec<TodoFile>)
    ensures
        r.deep_view().to_multiset() == files.deep_view().to_multiset(),
        todo_ranked(r.deep_view()),
{
    let ghost fv = files.deep_view();
    let mut out: Vec<TodoFile> = Vec::new();
    let mut i: usize = 0;
    assert(fv.take(0) =~= Seq::<TodoFileView>::empty());
    assert(out.deep_view() =~= Seq::<TodoFileView>::empty());
    while i < files.len()
        invariant
            fv == files.deep_view(),
            i <= fv.len(),
            out.deep_view().to_multiset() == fv.take(i as int).to_multiset(),
            todo_ranked(out.deep_view()),
        decreases fv.len() - i,
    {
        let f = copy_todo(&files[i]);
        let mut p: usize = 0;
        while p < out.len() && !todo_before_exec(&f, &out[p])
            invariant
                p <= out@.len(),
                forall|k: int| 0 <= k < p ==> !todo_before(f@, #[trigger] out.deep_view()[k]),
            decreases out@.len() - p,
        {
            p += 1;
        }
        let ghost o0 = out.deep_view();
        proof {
            lemma_insert_ranked(o0, p as int, f@);
        }
        let ghost fview = f@;
        out.insert(p, f);
        assert(out.deep_view() =~= o0.insert(p as int, fview));
        assert(fview == fv[i as int]);
        assert(fv.take(i + 1) =~= fv.take(i as int).push(fv[i as int]));
        proof {
            vstd::seq_lib::to_multiset_insert(o0, p as int, fview);
            vstd::seq_lib::to_multiset_build(fv.take(i as int), fview);
        }
        i += 1;
    }
    assert(fv.take(fv.len() as int) =~= fv);
    out
}

/// The number of markers in all the files, if it fits in a `usize`.
pub fn total_markers(files: &Vec<TodoFile>) -> (r: Option<usize>)
    ensures
        match r {
            Some(t) => t == todo_total(files.deep_view()),
            None => todo_total(files.deep_view()) > usize::MAX,
        },
{
    let ghost fv = files.deep_view();
    let mut t: usize = 0;
    let mut i: usize = 0;
    while i < files.len()
        invariant
            fv == files.deep_view(),
            i <= fv.len(),
            t == todo_total(fv.take(i as int)),
        decreases fv.len() - i,
    {
        assert(fv.take(i + 1).drop_last() =~= fv.take(i as int));
        if files[i].count > usize::MAX - t {
            proof {
                lemma_todo_total_prefix(fv, i + 1);
            }
            return None;
        }
        t = t + files[i].count;
        i += 1;
    }
    assert(fv.take(fv.len() as int) =~= fv);
    Some(t)
}

/// The bounded walk that counts TODO markers: how far it got, whether it
/// had to stop early, and the files with markers so far.
pub struct TodoWalk {
    pub unity: bool,
    pub scanned: usize,
    pub truncated: bool,
    pub files: Vec<TodoFile>,
}

/// What one read file adds to the walk: itself, under its path with `/`
/// separators, when it has markers.
pub open spec fn todo_entry(rel_path: Seq<char>, content: Option<Seq<char>>) -> Seq<TodoFileView> {
    match content {
        Some(c) => if marker_count(c) > 0 {
            seq![TodoFileView { path: crate::text::replace_char(rel_path, '\\', '/'), count: marker_count(c) }]
        } else {
            Seq::empty()
        },
        None => Seq::empty(),
    }
}

impl TodoWalk {
    /// A walk that has read nothing yet; `unity` makes it skip the
    /// directories a Unity project regenerates.
    pub fn new(unity: bool) -> (r: TodoWalk)
        ensures
            r.unity == unity,
            r.scanned == 0,
            !r.truncated,
            r.files@.len() == 0,
    {
        TodoWalk { unity, scanned: 0, truncated: false, files: Vec::new() }
    }

    /// Whether a directory at `depth` is read; one deeper than
    /// `TODO_MAX_DEPTH` is not, and marks the walk truncated.
    pub fn enter_dir(&mut self, depth: usize) -> (r: bool)
        ensures
            r == (depth <= TODO_MAX_DEPTH),
            final(self).truncated == (old(self).truncated || depth > TODO_MAX_DEPTH),
            final(self).unity == old(self).unity,
            final(self).scanned == old(self).scanned,
            final(self).files.deep_view() == old(self).files.deep_view(),
    {
        if depth > TODO_MAX_DEPTH {
            self.truncated = true;
            false
        } else {
            true
        }
    }

    /// Whether the walk goes on to the next entry; after
    /// `TODO_MAX_FILES` files it stops, truncated.
    pub fn has_room(&mut self) -> (r: bool)
        ensures
            r == (old(self).scanned < TODO_MAX_FILES),
            final(self).truncated == (old(self).truncated || old(self).scanned >= TODO_MAX_FILES),
            final(self).unity == old(self).unity,
            final(self).scanned == old(self).scanned,
            final(self).files.deep_view() == old(self).files.deep_view(),
    {
        if self.scanned >= TODO_MAX_FILES {
            self.truncated = true;
            false
        } else {
            true
        }
    }

    /// Whether the walk goes into a subdirectory of this name.
    pub fn descends_into(&self, name: &str) -> (r: bool)
        ensures
            r == !crate::detect::should_skip_dir_in(self.unity, name@),
    {
        !crate::detect::should_skip_dir_in_exec(self.unity, name)
    }

    /// Whether the walk reads a file of this name and size (`None` when
    /// its size could not be learned): a source-like file of at most
    /// `TODO_MAX_FILE_BYTES`.
    pub fn reads_file(name: &str, size: Option<u64>) -> (r: bool)
        ensures
            r == (source_like(name@) && match size {
                Some(n) => n <= TODO_MAX_FILE_BYTES,
                None => false,
            }),
    {
        let small = match size {
            Some(n) => n <= TODO_MAX_FILE_BYTES,
            None => false,
        };
        is_source_like(name) && small
    }

    /// Counts one read file (`None` when its text could not be read) and
    /// keeps it when it has markers.
    pub fn record_file(&mut self, rel_path: &str, content: Option<String>)
        requires
            old(self).scanned < TODO_MAX_FILES,
        ensures
            final(self).scanned == old(self).scanned + 1,
            final(self).unity == old(self).unity,
            final(self).truncated == old(self).truncated,
            final(self).files.deep_view() == old(self).files.deep_view() + todo_entry(
                rel_path@,
                content.deep_view(),
            ),
    {
        self.scanned = self.scanned + 1;
        let count = match &content {
            Some(c) => count_markers(c.as_str()),
            None => 0,
        };
        let ghost f0 = self.files.deep_view();
        if count > 0 {
            let p = crate::text::replace_char_exec(chars_of(rel_path).as_slice(), '\\', '/');
            let f = TodoFile { path: string_of(p.as_slice()), count };
            let ghost fview = f@;
            self.files.push(f);
            assert(self.files.deep_view() =~= f0 + todo_entry(rel_path@, content.deep_view()));
        } else {
            assert(f0 + todo_entry(rel_path@, content.deep_view()) =~= f0);
        }
    }

    /// The number of markers found, if it fits in a `usize`.
    pub fn total(&self) -> (r: Option<usize>)
        ensures
            match r {
                Some(t) => t == todo_total(self.files.deep_view()),
                None => todo_total(self.files.deep_view()) > usize::MAX,
            },
    {
        total_markers(&self.files)
    }

    /// The summary of the walk: the total number of markers, how many files
    /// were read, whether the walk stopped early, and the files with the
    /// most markers (ties by path), at most `TODO_TOP_FILES`.
    pub fn finish(self) -> (r: TodoBrief)
        requires
            todo_total(self.files.deep_view()) <= usize::MAX,
        ensures
            r.total == todo_total(self.files.deep_view()),
            r.files_scanned == self.scanned,
            r.truncated == self.truncated,
            exists|ranked: Seq<TodoFileView>|
                ranked.to_multiset() == self.files.deep_view().to_multiset() && todo_ranked(ranked)
                    && r.top_files.deep_view() == cap(ranked, TODO_TOP_FILES as nat),
    {
        let total = match total_markers(&self.files) {
            Some(t) => t,
            None => 0,
        };
        let mut ranked = rank_todos(&self.files);
        let ghost rv = ranked.deep_view();
        if ranked.len() > TODO_TOP_FILES {
            ranked.truncate(TODO_TOP_FILES);
        }
        assert(ranked.deep_view() =~= cap(rv, TODO_TOP_FILES as nat));
        TodoBrief { total, files_scanned: self.scanned, truncated: self.truncated, top_files: ranked }
    }
}

/// The names of the suite tools in this state.
pub open spec fn suite_names_in(tools: Seq<crate::tools::SuiteToolInfoView>, state: Seq<char>) -> Seq<
    Seq<char>,
> {
    tools.filter_map(
        |t: crate::tools::SuiteToolInfoView|
            if t.state == state {
                Some(t.name)
            } else {
                None
            },
    )
}

/// The names of the suite tools in this state (`linked`, `available` or
/// `missing`).
pub fn suite_names_in_state(tools: &Vec<crate::tools::SuiteToolInfo>, state: &str) -> (r: Vec<String>)
    ensures
        r.deep_view() == suite_names_in(tools.deep_view(), state@),
{
    let ghost tv = tools.deep_view();
    let ghost f = |t: crate::tools::SuiteToolInfoView|
        if t.state == state@ {
            Some(t.name)
        } else {
            None
        };
    let mut out: Vec<String> = Vec::new();
    let mut i: usize = 0;
    while i < tools.len()
        invariant
            tv == tools.deep_view(),
            i <= tv.len(),
            f == (|t: crate::tools::SuiteToolInfoView|
                if t.state == state@ {
                    Some(t.name)
                } else {
                    None
                }),
            out.deep_view() == tv.take(i as int).filter_map(f),
        decreases tv.len() - i,
    {
        assert(tv.take(i + 1).drop_last() =~= tv.take(i as int));
        assert(tv.take(i + 1).last() == tv[i as int]);
        if crate::text::str_eq(tools[i].state.as_str(), state) {
            let ghost o0 = out.deep_view();
            out.push(tools[i].name.clone());
            assert(out.deep_view() =~= o0 + seq![tv[i as int].name]);
        }
        i += 1;
    }
    assert(tv.take(tv.len() as int) =~= tv);
    assert(suite_names_in(tv, state@) == tv.filter_map(f)) by {
        assert(f =~= |t: crate::tools::SuiteToolInfoView|
            if t.state == state@ {
                Some(t.name)
            } else {
                None
            });
    }
    out
}

// ---------------------------------------------------------------------------
// The report
// ---------------------------------------------------------------------------

/// A detected project, as the brief lists it.
pub struct ProjectBrief {
    pub kind: String,
    pub root: String,
    pub manifest: String,
    pub name: Option<String>,
}

/// The view of a `ProjectBrief`.


pub struct ProjectBriefView {
    pub kind: Seq<char>,
    pub root: Seq<char>,
    pub manifest: Seq<char>,
    pub name: Option<Seq<char>>,
}

impl View for ProjectBrief {
    type V = ProjectBriefView;

    open spec fn view(&self) -> ProjectBriefView {
        ProjectBriefView {
            kind: self.kind@,
            root: self.root@,
            manifest: self.manifest@,
            name: self.name.deep_view(),
        }
    }
}

impl DeepView for ProjectBrief {
    type V = ProjectBriefView;

    open spec fn deep_view(&self) -> ProjectBriefView {
        self@
    }
}

/// A project in the brief: named by its metadata's name, else its module.
pub open spec fn project_brief_of(p: ProjectView) -> ProjectBriefView {
    ProjectBriefView {
        kind: p.kind,
        root: p.root,
        manifest: p.manifest,
        name: match p.metadata.name {
            Some(n) => Some(n),
            None => p.metadata.module,
        },
    }
}

/// A recent commit, as the brief lists it.
pub struct CommitBrief {
    pub sha: String,
    pub message: String,
    pub date: String,
}

/// The view of a `CommitBrief`.


pub struct CommitBriefView {
    pub sha: Seq<char>,
    pub message: Seq<char>,
    pub date: Seq<char>,
}

impl View for CommitBrief {
    type V = CommitBriefView;

    open spec fn view(&self) -> CommitBriefView {
        CommitBriefView { sha: self.sha@, message: self.message@, date: self.date@ }
    }
}

impl DeepView for CommitBrief {
    type V = CommitBriefView;

    open spec fn deep_view(&self) -> CommitBriefView {
        self@
    }
}

pub open spec fn commit_brief_of(c: RecentCommitView) -> CommitBriefView {
    CommitBriefView { sha: c.sha, message: c.message, date: c.date }
}

/// The git part of the brief.
pub struct GitBrief {
    pub branch: String,
    pub head_sha: String,
    pub dirty_count: usize,
    pub untracked_count: usize,
    pub ahead: Option<usize>,
    pub behind: Option<usize>,
    pub commit_count: Option<usize>,
    pub changed_files: Vec<ChangedFile>,
    pub changed_files_truncated: bool,
    pub recent_commits: Vec<CommitBrief>,
}

/// The view of a `GitBrief`.


pub struct GitBriefView {
    pub branch: Seq<char>,
    pub head_sha: Seq<char>,
    pub dirty_count: nat,
    pub untracked_count: nat,
    pub ahead: Option<nat>,
    pub behind: Option<nat>,
    pub commit_count: Option<nat>,
    pub changed_files: Seq<ChangedFileView>,
    pub changed_files_truncated: bool,
    pub recent_commits: Seq<CommitBriefView>,
}

impl View for GitBrief {
    type V = GitBriefView;

    open spec fn view(&self) -> GitBriefView {
        GitBriefView {
            branch: self.branch@,
            head_sha: self.head_sha@,
            dirty_count: self.dirty_count as nat,
            untracked_count: self.untracked_count as nat,
            ahead: opt_nat(self.ahead),
            behind: opt_nat(self.behind),
            commit_count: opt_nat(self.commit_count),
            changed_files: self.changed_files.deep_view(),
            changed_files_truncated: self.changed_files_truncated,
            recent_commits: self.recent_commits.deep_view(),
        }
    }
}

/// The git part of the brief, from the scan's git state and the outputs of
/// `git status --porcelain` and `git rev-list --count HEAD`: at most
/// `CHANGED_FILES_LIMIT` changed files and `RECENT_COMMITS_LIMIT` commits.
pub open spec fn git_brief_of(g: GitStateView, status: Option<Seq<char>>, count: Option<Seq<char>>) -> GitBriefView {
    GitBriefView {
        branch: g.branch,
        head_sha: g.head_sha,
        dirty_count: g.dirty_count,
        untracked_count: g.untracked_count,
        ahead: g.ahead,
        behind: g.behind,
        commit_count: commit_count_of(count),
        changed_files: changed_files_of(status, CHANGED_FILES_LIMIT as nat).0,
        changed_files_truncated: changed_files_of(status, CHANGED_FILES_LIMIT as nat).1,
        recent_commits: cap(g.recent_commits, RECENT_COMMITS_LIMIT as nat).map_values(
            |c: RecentCommitView| commit_brief_of(c),
        ),
    }
}

/// The doctor's verdict, as the brief carries it.
pub struct HealthBrief {
    pub status: String,
    pub action_level: String,
    pub blockers: Vec<DoctorIssue>,
    pub warnings: Vec<DoctorIssue>,
}

/// Available and missing tools, by name.
pub struct ToolsBrief {
    pub available: Vec<String>,
    pub missing: Vec<String>,
}

/// How many lockfiles are tracked, and which are stale.
pub struct LockfilesBrief {
    pub tracked_count: usize,
    pub stale: Vec<String>,
}

/// Suite tools by state.
pub struct SuiteToolsBrief {
    pub linked: Vec<String>,
    pub available: Vec<String>,
    pub missing: Vec<String>,
}

/// The summary of a sentinel risk matrix.
pub struct SentinelBrief {
    pub tracked_files: usize,
    pub high_risk: usize,
    pub medium_risk: usize,
}

/// The brief.
pub struct BriefReport {
    pub schema_version: String,
    pub timestamp: String,
    pub repo_path: String,
    pub name: String,
    pub docs: DocsBrief,
    pub markers: Vec<String>,
    pub projects: Vec<ProjectBrief>,
    pub git: Option<GitBrief>,
    pub health: HealthBrief,
    pub tools: ToolsBrief,
    pub lockfiles: LockfilesBrief,
    pub suite_tools: SuiteToolsBrief,
    pub todos: TodoBrief,
    pub sentinel: Option<SentinelBrief>,
    pub commands: Vec<DoctorCommand>,
}

/// What the brief reads besides the scan, gathered from the repository.
pub struct BriefSources {
    /// When the brief was taken.
    pub timestamp: String,
    /// The last component of the repository path, where it has one.
    pub dir_name: Option<String>,
    /// The text of PROJECT.md, where it could be read.
    pub project_md: Option<String>,
    /// The text of README.md, where it could be read.
    pub readme: Option<String>,
    /// Which of `doc_candidates` exist.
    pub docs_present: Vec<bool>,
    /// Which of `marker_paths` exist.
    pub markers_present: Vec<bool>,
    /// The text of `ProjectSettings/ProjectVersion.txt`, where it could be read.
    pub unity_version_file: Option<String>,
    /// What `git status --porcelain` printed.
    pub status_output: Option<String>,
    /// What `git rev-list --count HEAD` printed.
    pub commit_count_output: Option<String>,
    /// The TODO walk's summary.
    pub todos: TodoBrief,
    /// The sentinel summary, where one was found.
    pub sentinel: Option<SentinelBrief>,
}

/// The name of a repository: its directory name, else `repo`.
pub open spec fn brief_name(dir_name: Option<Seq<char>>) -> Seq<char> {
    match dir_name {
        Some(n) => if n.len() > 0 {
            n
        } else {
            "repo"@
        },
        None => "repo"@,
    }
}

/// The names of the tools that are available, or that are not.
pub open spec fn tool_names(tools: Seq<ToolInfoView>, available: bool) -> Seq<Seq<char>> {
    tools.filter_map(
        |t: ToolInfoView|
            if t.available == available {
                Some(t.name)
            } else {
                None
            },
    )
}

/// The paths of the stale lockfiles.
pub open spec fn stale_paths(ls: Seq<LockfileInfoView>) -> Seq<Seq<char>> {
    ls.filter_map(
        |l: LockfileInfoView|
            if l.stale {
                Some(l.path)
            } else {
                None
            },
    )
}

fn project_briefs(ps: &Vec<DetectedProject>) -> (r: Vec<ProjectBrief>)
    ensures
        r.deep_view() == ps.deep_view().map_values(|p: ProjectView| project_brief_of(p)),
{
    let ghost pv = ps.deep_view();
    let mut out: Vec<ProjectBrief> = Vec::new();
    let mut i: usize = 0;
    while i < ps.len()
        invariant
            pv == ps.deep_view(),
            i <= pv.len(),
            out.deep_view() == pv.take(i as int).map_values(|p: ProjectView| project_brief_of(p)),
        decreases pv.len() - i,
    {
        let p = &ps[i];
        let name = match &p.metadata.name {
            Some(n) => Some(n.clone()),
            None => opt_string_copy(&p.metadata.module),
        };
        let b = ProjectBrief { kind: p.kind.clone(), root: p.root.clone(), manifest: p.manifest.clone(), name };
        let ghost o0 = out.deep_view();
        let ghost bv = b@;
        out.push(b);
        assert(out.deep_view() =~= o0.push(bv));
        assert(pv.take(i + 1).map_values(|p: ProjectView| project_brief_of(p)) =~= pv.take(
            i as int,
        ).map_values(|p: ProjectView| project_brief_of(p)).push(project_brief_of(pv[i as int])));
        i += 1;
    }
    assert(pv.take(pv.len() as int) =~= pv);
    out
}

fn commit_briefs(cs: &Vec<RecentCommit>) -> (r: Vec<CommitBrief>)
    ensures
        r.deep_view() == cap(cs.deep_view(), RECENT_COMMITS_LIMIT as nat).map_values(
            |c: RecentCommitView| commit_brief_of(c),
        ),
{
    let ghost cv = cs.deep_view();
    let n = if cs.len() < RECENT_COMMITS_LIMIT {
        cs.len()
    } else {
        RECENT_COMMITS_LIMIT
    };
    let mut out: Vec<CommitBrief> = Vec::new();
    let mut i: usize = 0;
    while i < n
        invariant
            cv == cs.deep_view(),
            n <= cv.len(),
            n == cap(cv, RECENT_COMMITS_LIMIT as nat).len(),
            i <= n,
            out.deep_view() == cv.take(i as int).map_values(|c: RecentCommitView| commit_brief_of(c)),
        decreases n - i,
    {
        let c = &cs[i];
        let b = CommitBrief { sha: c.sha.clone(), message: c.message.clone(), date: c.date.clone() };
        let ghost o0 = out.deep_view();
        let ghost bv = b@;
        out.push(b);
        assert(out.deep_view() =~= o0.push(bv));
        assert(cv.take(i + 1).map_values(|c: RecentCommitView| commit_brief_of(c)) =~= cv.take(
            i as int,
        ).map_values(|c: RecentCommitView| commit_brief_of(c)).push(commit_brief_of(cv[i as int])));
        i += 1;
    }
    assert(cv.take(n as int) =~= cap(cv, RECENT_COMMITS_LIMIT as nat));
    out
}

fn tool_names_exec(tools: &Vec<ToolInfo>, available: bool) -> (r: Vec<String>)
    ensures
        r.deep_view() == tool_names(tools.deep_view(), available),
{
    let ghost tv = tools.deep_view();
    let ghost f = |t: ToolInfoView|
        if t.available == available {
            Some(t.name)
        } else {
            None
        };
    let mut out: Vec<String> = Vec::new();
    let mut i: usize = 0;
    while i < tools.len()
        invariant
            tv == tools.deep_view(),
            i <= tv.len(),
            f == (|t: ToolInfoView|
                if t.available == available {
                    Some(t.name)
                } else {
                    None
                }),
            out.deep_view() == tv.take(i as int).filter_map(f),
        decreases tv.len() - i,
    {
        assert(tv.take(i + 1).drop_last() =~= tv.take(i as int));
        assert(tv.take(i + 1).last() == tv[i as int]);
        if tools[i].available == available {
            let ghost o0 = out.deep_view();
            out.push(tools[i].name.clone());
            assert(out.deep_view() =~= o0 + seq![tv[i as int].name]);
        }
        i += 1;
    }
    assert(tv.take(tv.len() as int) =~= tv);
    assert(tool_names(tv, available) == tv.filter_map(f)) by {
        assert(f =~= |t: ToolInfoView|
            if t.available == available {
                Some(t.name)
            } else {
                None
            });
    }
    out
}

fn stale_paths_exec(ls: &Vec<LockfileInfo>) -> (r: Vec<String>)
    ensures
        r.deep_view() == stale_paths(ls.deep_view()),
{
    let ghost lv = ls.deep_view();
    let ghost f = |l: LockfileInfoView|
        if l.stale {
            Some(l.path)
        } else {
            None
        };
    let mut out: Vec<String> = Vec::new();
    let mut i: usize = 0;
    while i < ls.len()
        invariant
            lv == ls.deep_view(),
            i <= lv.len(),
            f == (|l: LockfileInfoView|
                if l.stale {
                    Some(l.path)
                } else {
                    None
                }),
            out.deep_view() == lv.take(i as int).filter_map(f),
        decreases lv.len() - i,
    {
        assert(lv.take(i + 1).drop_last() =~= lv.take(i as int));
        assert(lv.take(i + 1).last() == lv[i as int]);
        if ls[i].stale {
            let ghost o0 = out.deep_view();
            out.push(ls[i].path.clone());
            assert(out.deep_view() =~= o0 + seq![lv[i as int].path]);
        }
        i += 1;
    }
    assert(lv.take(lv.len() as int) =~= lv);
    assert(stale_paths(lv) == lv.filter_map(f)) by {
        assert(f =~= |l: LockfileInfoView|
            if l.stale {
                Some(l.path)
            } else {
                None
            });
    }
    out
}

fn git_brief(g: &GitState, status: &Option<String>, count: &Option<String>) -> (r: GitBrief)
    ensures
        r@ == git_brief_of(g@, status.deep_view(), count.deep_view()),
{
    let (changed_files, changed_files_truncated) = parse_changed_files(status, CHANGED_FILES_LIMIT);
    GitBrief {
        branch: g.branch.clone(),
        head_sha: g.head_sha.clone(),
        dirty_count: g.dirty_count,
        untracked_count: g.untracked_count,
        ahead: g.ahead,
        behind: g.behind,
        commit_count: parse_commit_count(count),
        changed_files,
        changed_files_truncated,
        recent_commits: commit_briefs(&g.recent_commits),
    }
}

/// Builds the brief from a completed scan and what was read from the
/// repository: the doctor's verdict and commands, the projects, git state
/// with changed files and recent commits, tools, lockfiles and suite tools
/// by state, documents, markers, TODOs and the sentinel summary.
pub fn build_report(scan: &ScanResult, sources: BriefSources) -> (r: BriefReport)
    requires
        sources.docs_present@.len() == doc_candidates_spec().len(),
        sources.markers_present@.len() == marker_paths_spec().len(),
    ensures
        r.schema_version@ == BRIEF_SCHEMA_VERSION@,
        r.timestamp@ == sources.timestamp@,
        r.repo_path@ == scan@.repo_path,
        r.name@ == brief_name(sources.dir_name.deep_view()),
        r.docs@.project_md == match sources.project_md {
            Some(c) => Some(project_doc_of(c@)),
            None => None,
        },
        r.docs@.readme == match sources.readme {
            Some(c) => Some(readme_doc_of(c@)),
            None => None,
        },
        r.docs@.other == pick(doc_candidates_spec(), sources.docs_present@, doc_candidates_spec().len()),
        r.markers.deep_view() == markers_of(
            sources.markers_present@,
            match sources.unity_version_file {
                Some(c) => unity_version_of(c@),
                None => None,
            },
        ),
        r.projects.deep_view() == scan@.projects.map_values(|p: ProjectView| project_brief_of(p)),
        match scan@.git {
            Some(g) => r.git matches Some(gb) && gb@ == git_brief_of(
                g,
                sources.status_output.deep_view(),
                sources.commit_count_output.deep_view(),
            ),
            None => r.git is None,
        },
        r.health.status@ == status_of(blockers_of(scan@), warnings_of(scan@)),
        r.health.action_level@ == action_level_of(
            blockers_of(scan@),
            warnings_of(scan@),
            scan@.suggested_commands.len(),
        ),
        r.health.blockers.deep_view() == blockers_of(scan@),
        r.health.warnings.deep_view() == warnings_of(scan@),
        r.tools.available.deep_view() == tool_names(scan@.tools, true),
        r.tools.missing.deep_view() == tool_names(scan@.tools, false),
        r.lockfiles.tracked_count == scan@.lockfiles.len(),
        r.lockfiles.stale.deep_view() == stale_paths(scan@.lockfiles),
        r.suite_tools.linked.deep_view() == suite_names_in(scan@.suite_tools, "linked"@),
        r.suite_tools.available.deep_view() == suite_names_in(scan@.suite_tools, "available"@),
        r.suite_tools.missing.deep_view() == suite_names_in(scan@.suite_tools, "missing"@),
        r.todos == sources.todos,
        r.sentinel == sources.sentinel,
        r.commands.deep_view() == scan@.suggested_commands,
{
    let doctor = crate::doctor::build_report(scan);
    let BriefSources {
        timestamp,
        dir_name,
        project_md,
        readme,
        docs_present,
        markers_present,
        unity_version_file,
        status_output,
        commit_count_output,
        todos,
        sentinel,
    } = sources;
    proof {
        reveal_strlit("");
    }
    let name = match dir_name {
        Some(n) => if !crate::text::str_eq(n.as_str(), "") {
            assert(n@.len() > 0) by {
                if n@.len() == 0 {
                    assert(n@ =~= ""@);
                }
            }
            n
        } else {
            crate::text::lit("repo")
        },
        None => crate::text::lit("repo"),
    };
    let unity = match &unity_version_file {
        Some(c) => unity_version(c.as_str()),
        None => None,
    };
    let git = match &scan.git {
        Some(g) => Some(git_brief(g, &status_output, &commit_count_output)),
        None => None,
    };
    let crate::doctor::DoctorReport { status, action_level, blockers, warnings, recommended_commands, .. } =
        doctor;
    BriefReport {
        schema_version: crate::text::lit(BRIEF_SCHEMA_VERSION),
        timestamp,
        repo_path: scan.repo_path.clone(),
        name,
        docs: gather_docs(project_md, readme, &docs_present),
        markers: detect_markers(&markers_present, unity),
        projects: project_briefs(&scan.projects),
        git,
        health: HealthBrief { status, action_level, blockers, warnings },
        tools: ToolsBrief {
            available: tool_names_exec(&scan.tools, true),
            missing: tool_names_exec(&scan.tools, false),
        },
        lockfiles: LockfilesBrief { tracked_count: scan.lockfiles.len(), stale: stale_paths_exec(&scan.lockfiles) },
        suite_tools: SuiteToolsBrief {
            linked: suite_names_in_state(&scan.suite_tools, "linked"),
            available: suite_names_in_state(&scan.suite_tools, "available"),
            missing: suite_names_in_state(&scan.suite_tools, "missing"),
        },
        todos,
        sentinel,
        commands: recommended_commands,
    }
}

/// A line that is a `**Label:** value` line whose label is `tech` or
/// `stack` in any ASCII case.
pub open spec fn is_tech_line(line: Seq<char>) -> bool {
    bold_label(line) matches Some((label, _)) && (ascii_lower(label) == "tech"@ || ascii_lower(label)
        == "stack"@)
}

/// The technology a PROJECT.md names is the value of its first `**Tech:**`
/// or `**Stack:**` line (labels in any ASCII case), cut to `SUMMARY_CHARS`.
pub proof fn law_project_md_tech(content: Seq<char>, i: int)
    requires
        0 <= i < lines(content).len(),
        is_tech_line(lines(content)[i]),
        forall|j: int| 0 <= j < i ==> !is_tech_line(#[trigger] lines(content)[j]),
    ensures
        project_doc_of(content).tech == Some(
            truncated((bold_label(lines(content)[i])->0).1, SUMMARY_CHARS as nat),
        ),
{
    let ls = lines(content);
    let f = |l: Seq<char>| labelled(l, tech_labels());
    assert(tech_labels()[0] == "tech"@ && tech_labels()[1] == "stack"@ && tech_labels().len() == 2);
    let (label, value) = bold_label(ls[i])->0;
    assert(tech_labels().contains(ascii_lower(label))) by {
        if ascii_lower(label) == "tech"@ {
            assert(tech_labels()[0] == ascii_lower(label));
        } else {
            assert(tech_labels()[1] == ascii_lower(label));
        }
    }
    assert(f(ls[i]) == Some(truncated(value, SUMMARY_CHARS as nat)));
    assert forall|j: int| 0 <= j < i implies f(#[trigger] ls[j]) is None by {
        assert(!is_tech_line(ls[j]));
        if bold_label(ls[j]) is Some {
            let (l, v) = bold_label(ls[j])->0;
            if tech_labels().contains(ascii_lower(l)) {
                let k = choose|k: int| 0 <= k < tech_labels().len() && tech_labels()[k] == ascii_lower(l);
                assert(k == 0 || k == 1);
            }
        }
    }
    crate::seq_facts::lemma_first_map_at(ls, f, i);
}

} // verus!
