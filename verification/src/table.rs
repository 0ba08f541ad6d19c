//! The table of results: for each name, the paths found for it.

use rustc_hash::FxBuildHasher;
use rustc_hash::FxHashMap;
use vstd::prelude::*;
use crate::paths::texts;

verus! {

/// `rustc_hash::FxBuildHasher`, the hasher that an `FxHashMap` is built with.
#[verifier::external_type_specification]
#[verifier::external_body]
pub struct ExFxBuildHasher(FxBuildHasher);

/// What a table holds: for each name that is a key, the texts of its paths,
/// in the order of the list.
pub uninterp spec fn table_entries(t: FxHashMap<String, Vec<String>>) -> Map<
    Seq<char>,
    Seq<Seq<char>>,
>;

/// Trusted: calls `FxHashMap::default`, which gives a map without entries.
#[verifier::external_body]
pub(crate) fn table_new() -> (fresh: FxHashMap<String, Vec<String>>)
    ensures
        table_entries(fresh) =~= Map::empty(),
{
    FxHashMap::default()
}

/// Trusted: calls `HashMap::remove`, which takes the entry of `name` out of
/// the map and returns its list, or returns `None` and leaves the map as it
/// is where `name` is no key.
#[verifier::external_body]
pub(crate) fn table_remove(t: &mut FxHashMap<String, Vec<String>>, name: &str) -> (taken: Option<
    Vec<String>,
>)
    ensures
        table_entries(*final(t)) == table_entries(*old(t)).remove(name@),
        match taken {
            Some(list) => table_entries(*old(t)).contains_key(name@) && texts(list@)
                == table_entries(*old(t))[name@],
            None => !table_entries(*old(t)).contains_key(name@),
        },
{
    t.remove(name)
}

/// Trusted: calls `HashMap::insert`, which makes `list` the entry of `name`,
/// in place of an earlier entry if there was one, and leaves the other
/// entries as they are.
#[verifier::external_body]
pub(crate) fn table_insert(t: &mut FxHashMap<String, Vec<String>>, name: String, list: Vec<String>)
    ensures
        table_entries(*final(t)) == table_entries(*old(t)).insert(name@, texts(list@)),
{
    t.insert(name, list);
}

/// Trusted: calls `HashMap::contains_key`, which says whether `name` is a key.
#[verifier::external_body]
pub(crate) fn table_contains(t: &FxHashMap<String, Vec<String>>, name: &str) -> (present: bool)
    ensures
        present == table_entries(*t).contains_key(name@),
{
    t.contains_key(name)
}

} // verus!
