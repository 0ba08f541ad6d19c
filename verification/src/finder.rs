//! The finder: where a search starts, what kind of entry it accepts, and the
//! searches themselves.

use rustc_hash::FxHashMap;
use vstd::prelude::*;
use crate::kind::FindUpKind;
use crate::kind::Probe;
use crate::paths::ancestor_chain;
use crate::paths::ancestors;
use crate::paths::name_texts;
use crate::paths::texts;
use crate::table::table_entries;
use crate::table::table_remove;
use crate::walk::gather;
use crate::walk::judge_rows;
use crate::walk::lemma_results_nearest_first;
use crate::walk::nearest_first;
use crate::walk::observe;
use crate::walk::probe_views;
use crate::walk::saved_for;
use crate::walk::searched;
use crate::walk::verdicts;

verus! {

/// A search upward from the directory `cwd` for entries of one kind.
#[derive(Debug, PartialEq)]
pub struct UpFinder {
    /// The directory in which the search starts.
    pub cwd: String,
    /// The kind of entry to search for.
    pub kind: FindUpKind,
}

/// A finder in the making, before its starting directory is known.
#[derive(Debug)]
pub struct UpFinderBuilder {
    pub kind: FindUpKind,
}

/// A finder in the making, with its starting directory.
#[derive(Debug)]
pub struct UpFinderBuilderWithCwd {
    pub cwd: String,
    pub kind: FindUpKind,
}

impl UpFinderBuilder {
    /// Sets the directory in which the search starts.
    pub fn cwd(self, cwd: &str) -> (next: UpFinderBuilderWithCwd)
        ensures
            next.cwd@ == cwd@,
            next.kind == self.kind,
    {
        UpFinderBuilderWithCwd { cwd: cwd.to_owned(), kind: self.kind }
    }

    /// Sets the kind of entry to search for.
    pub fn kind(self, kind: FindUpKind) -> (next: UpFinderBuilder)
        ensures
            next.kind == kind,
    {
        UpFinderBuilder { kind }
    }
}

impl UpFinderBuilderWithCwd {
    /// Sets the kind of entry to search for.
    pub fn kind(self, kind: FindUpKind) -> (next: UpFinderBuilderWithCwd)
        ensures
            next.cwd == self.cwd,
            next.kind == kind,
    {
        UpFinderBuilderWithCwd { cwd: self.cwd, kind }
    }

    /// The finder as configured.
    pub fn build(self) -> (finder: UpFinder)
        ensures
            finder.cwd == self.cwd,
            finder.kind == self.kind,
    {
        UpFinder { cwd: self.cwd, kind: self.kind }
    }
}

impl UpFinder {
    /// Starts the configuration of a finder. Unless another kind is set, the
    /// finder searches for files.
    pub fn builder() -> (start: UpFinderBuilder)
        ensures
            start.kind == FindUpKind::File,
    {
        UpFinderBuilder { kind: FindUpKind::File }
    }

    /// Finds `name` in the starting directory and in each of its ancestors.
    ///
    /// The result holds every match, nearest first. Which candidates match is
    /// up to the filesystem: the result is that of a search in which the
    /// filesystem gave some answer on each candidate.
    pub fn find_up(&self, name: &str) -> (paths: Vec<String>)
        ensures
            exists|seen: Seq<Seq<Probe>>|
                texts(paths@) == saved_for(
                    seq![name@],
                    verdicts(self.kind, ancestors(self.cwd@), seq![name@], seen),
                    name@,
                ),
            nearest_first(texts(paths@), ancestors(self.cwd@), name@),
    {
        let mut names: Vec<&str> = Vec::new();
        names.push(name);
        assert(name_texts(names@) =~= seq![name@]);
        assert(seq![name@][0] == name@);
        let mut found = self.find_up_multi(names.as_slice());
        assert(table_entries(found).contains_key(name@));
        match table_remove(&mut found, name) {
            Some(paths) => paths,
            None => Vec::new(),
        }
    }

    /// Finds `name` as `find_up` does, on a filesystem that answers as `seen`
    /// says: `seen[i][0]` is the probe of `name` in the `i`-th directory of
    /// the chain, and a candidate without a probe counts as absent.
    pub fn find_up_seen(&self, name: &str, seen: &Vec<Vec<Probe>>) -> (paths: Vec<String>)
        ensures
            texts(paths@) == saved_for(
                seq![name@],
                verdicts(self.kind, ancestors(self.cwd@), seq![name@], probe_views(seen@)),
                name@,
            ),
    {
        let mut names: Vec<&str> = Vec::new();
        names.push(name);
        assert(name_texts(names@) =~= seq![name@]);
        assert(seq![name@][0] == name@);
        let mut found = self.find_up_multi_seen(names.as_slice(), seen);
        assert(table_entries(found).contains_key(name@));
        match table_remove(&mut found, name) {
            Some(paths) => paths,
            None => Vec::new(),
        }
    }

    /// Finds each of `names` in the starting directory and in each of its
    /// ancestors.
    ///
    /// Every requested name is a key of the result, also one without a match.
    /// The list of a name holds every match of it, nearest first. Which
    /// candidates match is up to the filesystem: the table is that of a
    /// search in which the filesystem gave some answer on each candidate.
    ///
    /// A name is joined to each directory as it is, also where it holds a
    /// path separator. A name that is given twice is one key, and each of its
    /// matches is listed once for each time the name was given.
    pub fn find_up_multi(&self, names: &[&str]) -> (found: FxHashMap<String, Vec<String>>)
        ensures
            exists|seen: Seq<Seq<Probe>>|
                table_entries(found) == searched(
                    self.kind,
                    ancestors(self.cwd@),
                    name_texts(names@),
                    seen,
                ),
            table_entries(found).dom() =~= name_texts(names@).to_set(),
            forall|n: Seq<char>| #[trigger]
                name_texts(names@).contains(n) ==> nearest_first(
                    table_entries(found)[n],
                    ancestors(self.cwd@),
                    n,
                ),
    {
        let dirs = ancestor_chain(self.cwd.clone());
        let seen = observe(&dirs, names);
        let found = self.find_up_with_impl(dirs, names, &seen);
        proof {
            assert(table_entries(found) == searched(
                self.kind,
                ancestors(self.cwd@),
                name_texts(names@),
                probe_views(seen@),
            ));
            assert forall|n: Seq<char>| #[trigger]
                name_texts(names@).contains(n) implies nearest_first(
                table_entries(found)[n],
                ancestors(self.cwd@),
                n,
            ) by {
                lemma_results_nearest_first(
                    self.kind,
                    ancestors(self.cwd@),
                    name_texts(names@),
                    probe_views(seen@),
                    n,
                );
            }
        }
        found
    }

    /// Finds each of `names` as `find_up_multi` does, on a filesystem that
    /// answers as `seen` says: `seen[i][j]` is the probe of the `j`-th name
    /// in the `i`-th directory of the chain, and a candidate without a probe
    /// counts as absent.
    pub fn find_up_multi_seen(&self, names: &[&str], seen: &Vec<Vec<Probe>>) -> (found: FxHashMap<
        String,
        Vec<String>,
    >)
        ensures
            table_entries(found) == searched(
                self.kind,
                ancestors(self.cwd@),
                name_texts(names@),
                probe_views(seen@),
            ),
    {
        let dirs = ancestor_chain(self.cwd.clone());
        self.find_up_with_impl(dirs, names, seen)
    }

    /// The search itself over the chain `dirs`: the verdicts on every
    /// candidate, and the table they add up to.
    fn find_up_with_impl(&self, dirs: Vec<String>, names: &[&str], seen: &Vec<Vec<Probe>>) -> (found:
        FxHashMap<String, Vec<String>>)
        ensures
            table_entries(found) == searched(
                self.kind,
                texts(dirs@),
                name_texts(names@),
                probe_views(seen@),
            ),
    {
        let rows = judge_rows(&dirs, names, self.kind, seen);
        gather(names, &rows)
    }
}

} // verus!
