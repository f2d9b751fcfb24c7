//! Where snapshots live, how they are named, and which one a diff compares
//! against.
use vstd::prelude::*;

use crate::brief::extension;
use crate::error::ProbeError;
use crate::order::{str_lt, str_lt_exec};
use crate::text::{chars_of, ends_with, extend_str, starts_with, string_of};

verus! {

broadcast use vstd::string::group_string_axioms;

/// The directory `probe` keeps its state in, inside the repository.
pub const PROBE_DIR: &'static str = ".agent-probe";

/// The directory snapshots are saved in, inside `PROBE_DIR`.
pub const SNAPSHOTS_DIR: &'static str = "snapshots";

/// `rel` under `base`, as `Path::join` forms it on Unix: an absolute `rel`
/// stands alone, and one separator goes between.
pub open spec fn join_path(base: Seq<char>, rel: Seq<char>) -> Seq<char> {
    if starts_with(rel, "/"@) || base.len() == 0 {
        rel
    } else if ends_with(base, "/"@) {
        base + rel
    } else {
        base + "/"@ + rel
    }
}

/// `Path::join` on Unix.
pub fn join_path_exec(base: &str, rel: &str) -> (r: String)
    ensures
        r@ == join_path(base@, rel@),
{
    let b = chars_of(base);
    let rl = chars_of(rel);
    let slash = chars_of("/");
    if crate::text::starts_with_exec(rl.as_slice(), slash.as_slice()) || b.len() == 0 {
        return string_of(rl.as_slice());
    }
    let mut v = b;
    if !crate::text::ends_with_exec(v.as_slice(), slash.as_slice()) {
        extend_str(&mut v, "/");
    }
    extend_str(&mut v, rel);
    string_of(v.as_slice())
}

/// The snapshot directory of a repository.
pub open spec fn snapshots_dir_of(repo: Seq<char>) -> Seq<char> {
    join_path(join_path(repo, PROBE_DIR@), SNAPSHOTS_DIR@)
}

/// The snapshot directory of a repository.
pub fn snapshots_dir(repo: &str) -> (r: String)
    ensures
        r@ == snapshots_dir_of(repo@),
{
    let d = join_path_exec(repo, PROBE_DIR);
    join_path_exec(d.as_str(), SNAPSHOTS_DIR)
}

/// The file name of a snapshot taken at `stamp` (`%Y%m%d-%H%M%S`).
pub fn snapshot_file_name(stamp: &str) -> (r: String)
    ensures
        r@ == stamp@ + ".json"@,
{
    let mut v = chars_of(stamp);
    extend_str(&mut v, ".json");
    string_of(v.as_slice())
}

/// A snapshot file: its extension is `json`.
pub open spec fn is_snapshot_name(name: Seq<char>) -> bool {
    extension(name) == Some("json"@)
}

fn is_snapshot_name_exec(name: &str) -> (r: bool)
    ensures
        r == is_snapshot_name(name@),
{
    let n = chars_of(name);
    match crate::brief::extension_exec(n.as_slice()) {
        Some(e) => crate::text::chars_eq(e.as_slice(), chars_of("json").as_slice()),
        None => false,
    }
}

/// The latest snapshot among the names in the snapshot directory: the
/// greatest `.json` name, names in `String` order (snapshot names are
/// timestamps).
pub fn latest_snapshot_name(names: &Vec<String>) -> (r: Option<String>)
    ensures
        match r {
            None => forall|i: int| 0 <= i < names@.len() ==> !is_snapshot_name(#[trigger] names@[i]@),
            Some(m) => {
                &&& names.deep_view().contains(m@)
                &&& is_snapshot_name(m@)
                &&& forall|i: int|
                    0 <= i < names@.len() && is_snapshot_name(#[trigger] names@[i]@) ==> !str_lt(m@, names@[i]@)
            },
        },
{
    let mut best: Option<usize> = None;
    let mut i: usize = 0;
    while i < names.len()
        invariant
            i <= names@.len(),
            match best {
                None => forall|j: int| 0 <= j < i ==> !is_snapshot_name(#[trigger] names@[j]@),
                Some(b) => {
                    &&& b < i
                    &&& is_snapshot_name(names@[b as int]@)
                    &&& forall|j: int|
                        0 <= j < i && is_snapshot_name(#[trigger] names@[j]@) ==> !str_lt(
                            names@[b as int]@,
                            names@[j]@,
                        )
                },
            },
        decreases names@.len() - i,
    {
        if is_snapshot_name_exec(names[i].as_str()) {
            match best {
                None => {
                    proof {
                        crate::order::lemma_str_lt_irrefl(names@[i as int]@);
                    }
                    best = Some(i);
                },
                Some(b) => {
                    let bc = chars_of(names[b].as_str());
                    let ic = chars_of(names[i].as_str());
                    if str_lt_exec(bc.as_slice(), ic.as_slice()) {
                        proof {
                            crate::order::lemma_str_lt_irrefl(names@[i as int]@);
                            assert forall|j: int|
                                0 <= j < i + 1 && is_snapshot_name(#[trigger] names@[j]@) implies !str_lt(
                                names@[i as int]@,
                                names@[j]@,
                            ) by {
                                if j < i && str_lt(names@[i as int]@, names@[j]@) {
                                    crate::order::lemma_str_lt_trans(
                                        names@[b as int]@,
                                        names@[i as int]@,
                                        names@[j]@,
                                    );
                                }
                            }
                        }
                        best = Some(i);
                    }
                },
            }
        }
        i += 1;
    }
    match best {
        None => None,
        Some(b) => {
            assert(names.deep_view()[b as int] == names@[b as int]@);
            Some(names[b].clone())
        },
    }
}

/// Where the baseline of a diff is: the latest snapshot for `latest`, an
/// absolute path as it is, a relative one under the repository.
pub open spec fn baseline_path_of(repo: Seq<char>, against: Seq<char>, latest: Option<Seq<char>>) -> Result<
    Seq<char>,
    Seq<char>,
> {
    if against == "latest"@ {
        match latest {
            Some(name) => Ok(join_path(snapshots_dir_of(repo), name)),
            None => Err("No snapshots found; run `probe snapshot` first"@),
        }
    } else if starts_with(against, "/"@) {
        Ok(against)
    } else {
        Ok(join_path(repo, against))
    }
}

/// The path of the snapshot a diff compares against: `latest` is the name
/// `latest_snapshot_name` chose, if any.
pub fn resolve_snapshot_path(repo: &str, against: &str, latest: Option<String>) -> (r: Result<String, ProbeError>)
    ensures
        match baseline_path_of(repo@, against@, latest.deep_view()) {
            Ok(p) => r matches Ok(s) && s@ == p,
            Err(m) => r matches Err(ProbeError::Validation(e)) && e@ == m,
        },
{
    if crate::text::str_eq(against, "latest") {
        match latest {
            Some(name) => {
                let dir = snapshots_dir(repo);
                Ok(join_path_exec(dir.as_str(), name.as_str()))
            },
            None => Err(ProbeError::Validation(crate::text::lit("No snapshots found; run `probe snapshot` first"))),
        }
    } else if crate::text::starts_with_exec(chars_of(against).as_slice(), chars_of("/").as_slice()) {
        Ok(crate::text::lit(against))
    } else {
        Ok(join_path_exec(repo, against))
    }
}

} // verus!
