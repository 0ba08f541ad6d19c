//! Paths as text: joining, parents, the chain of ancestors, and the questions
//! asked of the filesystem about a candidate path.

use std::path::Path;
use vstd::prelude::*;
use vstd::string::*;

verus! {

/// The text of the path that `std::path::Path::join` gives for `dir` and `name`.
pub uninterp spec fn joined_path(dir: Seq<char>, name: Seq<char>) -> Seq<char>;

/// The text of the path that `std::path::Path::parent` gives for `dir`, if any.
pub uninterp spec fn parent_path(dir: Seq<char>) -> Option<Seq<char>>;

/// The texts of a sequence of owned strings.
pub open spec fn texts(list: Seq<String>) -> Seq<Seq<char>> {
    list.map_values(|s: String| s@)
}

/// The texts of a sequence of borrowed names.
pub open spec fn name_texts(names: Seq<&str>) -> Seq<Seq<char>> {
    names.map_values(|s: &str| s@)
}

/// The directories that an upward walk from `dir` visits, nearest first: `dir`
/// itself, then the chain of its parent. The chain ends at a directory without
/// a parent; a parent is only followed while it is shorter than its child, so
/// the chain is finite whatever the parent relation is.
pub open spec fn ancestors(dir: Seq<char>) -> Seq<Seq<char>>
    decreases dir.len(),
{
    match parent_path(dir) {
        Some(up) => if up.len() < dir.len() {
            seq![dir] + ancestors(up)
        } else {
            seq![dir]
        },
        None => seq![dir],
    }
}

/// Trusted: calls `std::path::Path::join`. The result is the joined path as
/// text, which the contract only names: joining is lexical, done without
/// looking at the filesystem.
#[verifier::external_body]
pub(crate) fn join_path(dir: &str, name: &str) -> (joined: String)
    ensures
        joined@ == joined_path(dir@, name@),
{
    Path::new(dir).join(name).to_string_lossy().into_owned()
}

/// Trusted: calls `std::path::Path::parent`. The result is the parent as text,
/// or `None` where the path ends in a root or is empty; the contract only
/// names it: the parent is computed lexically.
#[verifier::external_body]
pub(crate) fn parent_dir(dir: &str) -> (up: Option<String>)
    ensures
        match up {
            Some(p) => parent_path(dir@) == Some(p@),
            None => parent_path(dir@).is_none(),
        },
{
    match Path::new(dir).parent() {
        Some(p) => Some(p.to_string_lossy().into_owned()),
        None => None,
    }
}

/// Trusted: calls `std::path::Path::exists`. The answer depends on what is on
/// disk at the moment of the call, so nothing is claimed of it.
#[verifier::external_body]
pub(crate) fn path_exists(path: &str) -> (present: bool) {
    Path::new(path).exists()
}

/// Trusted: calls `std::path::Path::is_file`. The answer depends on what is on
/// disk at the moment of the call, so nothing is claimed of it.
#[verifier::external_body]
pub(crate) fn path_is_file(path: &str) -> (regular: bool) {
    Path::new(path).is_file()
}

/// Trusted: calls `std::path::Path::is_dir`. The answer depends on what is on
/// disk at the moment of the call, so nothing is claimed of it.
#[verifier::external_body]
pub(crate) fn path_is_dir(path: &str) -> (directory: bool) {
    Path::new(path).is_dir()
}

/// The chain of directories to scan when starting at `start`, nearest first.
pub fn ancestor_chain(start: String) -> (dirs: Vec<String>)
    ensures
        texts(dirs@) == ancestors(start@),
{
    let ghost origin = start@;
    let mut dirs: Vec<String> = Vec::new();
    let mut cursor = start;
    loop
        invariant_except_break
            texts(dirs@) + ancestors(cursor@) =~= ancestors(origin),
        ensures
            texts(dirs@) == ancestors(origin),
        decreases cursor@.len(),
    {
        let up = parent_dir(cursor.as_str());
        let here: usize = cursor.as_str().unicode_len();
        let ghost before = texts(dirs@);
        let ghost current = cursor@;
        dirs.push(cursor);
        assert(texts(dirs@) =~= before + seq![current]);
        match up {
            Some(p) => {
                if p.as_str().unicode_len() < here {
                    assert(before + (seq![current] + ancestors(p@)) =~= (before + seq![current])
                        + ancestors(p@));
                    cursor = p;
                } else {
                    break ;
                }
            },
            None => {
                break ;
            },
        }
    }
    dirs
}

/// A walk that starts at a directory without a parent scans that directory
/// and no other.
pub proof fn lemma_root_is_scanned_alone(dir: Seq<char>)
    requires
        parent_path(dir).is_none(),
    ensures
        ancestors(dir) == seq![dir],
{
}

/// The chain starts at the starting directory, and each further directory is
/// the parent of the one before it and shorter than it: no directory is
/// visited twice.
pub proof fn lemma_chain_steps(dir: Seq<char>, i: int)
    requires
        0 <= i < ancestors(dir).len(),
    ensures
        ancestors(dir)[0] == dir,
        i > 0 ==> parent_path(ancestors(dir)[i - 1]) == Some(ancestors(dir)[i]),
        i > 0 ==> ancestors(dir)[i].len() < ancestors(dir)[i - 1].len(),
    decreases i,
{
    if i > 0 {
        let up = parent_path(dir).unwrap();
        assert(ancestors(dir) == seq![dir] + ancestors(up));
        lemma_chain_steps(up, i - 1);
    }
}

} // verus!
