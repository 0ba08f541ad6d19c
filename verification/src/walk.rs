//! The upward walk: the verdicts on every candidate, directory by directory,
//! and the table of results that they add up to.

use rustc_hash::FxHashMap;
use vstd::prelude::*;
use crate::kind::FindUpKind;
use crate::kind::FindUpResult;
use crate::kind::Probe;
use crate::kind::Verdict;
use crate::paths::ancestors;
use crate::paths::join_path;
use crate::paths::joined_path;
use crate::paths::name_texts;
use crate::paths::parent_path;
use crate::paths::path_exists;
use crate::paths::path_is_dir;
use crate::paths::path_is_file;
use crate::paths::texts;
use crate::table::table_contains;
use crate::table::table_entries;
use crate::table::table_insert;
use crate::table::table_new;
use crate::table::table_remove;

verus! {

/// How far the search for one name has come: the paths saved so far, nearest
/// first, and whether the search for the name has ended.
pub struct Trail {
    pub saved: Seq<Seq<char>>,
    pub ended: bool,
}

/// The trail of a name after one more verdict on it. A saved path is added at
/// the end; a stop ends the search for the name; once ended, nothing changes.
pub open spec fn after_verdict(trail: Trail, verdict: Verdict) -> Trail {
    if trail.ended {
        trail
    } else {
        match verdict {
            Verdict::Saved(path) => Trail { saved: trail.saved.push(path), ended: false },
            Verdict::Continue => trail,
            Verdict::Stop => Trail { saved: trail.saved, ended: true },
        }
    }
}

/// The verdict at position `j` of a row. A row that is too short to have one
/// passes over the candidate.
pub open spec fn verdict_at(row: Seq<Verdict>, j: int) -> Verdict {
    if 0 <= j < row.len() {
        row[j]
    } else {
        Verdict::Continue
    }
}

/// The trail of name `n` after the first `j` verdicts of one directory's
/// row, starting from `start`. The verdict at a position counts for `n` where
/// the name requested at that position is `n`.
pub open spec fn row_trail(
    names: Seq<Seq<char>>,
    row: Seq<Verdict>,
    n: Seq<char>,
    start: Trail,
    j: nat,
) -> Trail
    decreases j,
{
    if j == 0 {
        start
    } else {
        let before = row_trail(names, row, n, start, (j - 1) as nat);
        if names[j - 1] == n {
            after_verdict(before, verdict_at(row, j - 1))
        } else {
            before
        }
    }
}

/// The trail of name `n` after the rows of the first `i` directories.
pub open spec fn walk_trail(
    names: Seq<Seq<char>>,
    rows: Seq<Seq<Verdict>>,
    n: Seq<char>,
    i: nat,
) -> Trail
    decreases i,
{
    if i == 0 {
        Trail { saved: Seq::empty(), ended: false }
    } else {
        row_trail(names, rows[i - 1], n, walk_trail(names, rows, n, (i - 1) as nat), names.len())
    }
}

/// What the verdicts save for name `n` over all the rows.
pub open spec fn saved_for(names: Seq<Seq<char>>, rows: Seq<Seq<Verdict>>, n: Seq<char>) -> Seq<
    Seq<char>,
> {
    walk_trail(names, rows, n, rows.len()).saved
}

/// The table that the verdicts add up to: every requested name is a key, and
/// its list holds what the verdicts save for it.
pub open spec fn gathered(names: Seq<Seq<char>>, rows: Seq<Seq<Verdict>>) -> Map<
    Seq<char>,
    Seq<Seq<char>>,
> {
    Map::new(|n: Seq<char>| names.contains(n), |n: Seq<char>| saved_for(names, rows, n))
}

/// The verdicts of rows of results, as values of the model.
pub open spec fn row_views(rows: Seq<Vec<FindUpResult>>) -> Seq<Seq<Verdict>> {
    rows.map_values(|row: Vec<FindUpResult>| row@.map_values(|verdict: FindUpResult| verdict@))
}

/// The probes of rows of probes.
pub open spec fn probe_views(seen: Seq<Vec<Probe>>) -> Seq<Seq<Probe>> {
    seen.map_values(|row: Vec<Probe>| row@)
}

/// What `seen` says of the candidate of the `j`-th name in the `i`-th
/// directory. A candidate of which `seen` says nothing counts as absent.
pub open spec fn seen_at(seen: Seq<Seq<Probe>>, i: int, j: int) -> Probe {
    if 0 <= i < seen.len() && 0 <= j < seen[i].len() {
        seen[i][j]
    } else {
        Probe { exists: false, is_file: false, is_dir: false }
    }
}

/// The verdicts of a walk over `dirs` for `names` on a filesystem that
/// answers as `seen` says: one row for each directory, one verdict for each
/// name, each on the candidate that joins the row's directory and the name.
pub open spec fn verdicts(
    kind: FindUpKind,
    dirs: Seq<Seq<char>>,
    names: Seq<Seq<char>>,
    seen: Seq<Seq<Probe>>,
) -> Seq<Seq<Verdict>> {
    Seq::new(
        dirs.len(),
        |i: int|
            Seq::new(
                names.len(),
                |j: int| kind.verdict(joined_path(dirs[i], names[j]), seen_at(seen, i, j)),
            ),
    )
}

/// The result of a search for `names` of entries of `kind` over the
/// directories `dirs`, nearest first, on a filesystem that answers as `seen`
/// says.
pub open spec fn searched(
    kind: FindUpKind,
    dirs: Seq<Seq<char>>,
    names: Seq<Seq<char>>,
    seen: Seq<Seq<Probe>>,
) -> Map<Seq<char>, Seq<Seq<char>>> {
    gathered(names, verdicts(kind, dirs, names, seen))
}

/// Builds the table of results from the verdicts on every candidate: row `i`
/// holds the verdicts of the `i`-th directory of the walk, nearest first, one
/// for each name in the order of `names`. Where a row is too short, the
/// candidates without a verdict are passed over.
pub fn gather(names: &[&str], rows: &Vec<Vec<FindUpResult>>) -> (found: FxHashMap<
    String,
    Vec<String>,
>)
    ensures
        table_entries(found) == gathered(name_texts(names@), row_views(rows@)),
{
    let ghost wanted = name_texts(names@);
    let ghost marks = row_views(rows@);
    let mut found = table_new();
    // The names whose search has ended are the keys of `ended`.
    let mut ended = table_new();
    let mut k: usize = 0;
    while k < names.len()
        invariant
            k <= names.len(),
            wanted == name_texts(names@),
            table_entries(ended) =~= Map::empty(),
            forall|n: Seq<char>| #[trigger]
                table_entries(found).contains_key(n) <==> wanted.take(k as int).contains(n),
            forall|n: Seq<char>| #[trigger]
                table_entries(found).contains_key(n) ==> table_entries(found)[n]
                    == Seq::<Seq<char>>::empty(),
        decreases names.len() - k,
    {
        let name = names[k];
        let ghost before = wanted.take(k as int);
        table_insert(&mut found, name.to_owned(), Vec::new());
        assert(texts(Seq::<String>::empty()) =~= Seq::<Seq<char>>::empty());
        assert(wanted.take(k + 1) =~= before.push(name@));
        assert forall|n: Seq<char>| #[trigger]
            table_entries(found).contains_key(n) <==> wanted.take(k + 1).contains(n) by {
            if n == name@ {
                assert(wanted.take(k + 1)[k as int] == n);
            } else if before.contains(n) {
                let w = choose|w: int| 0 <= w < before.len() && before[w] == n;
                assert(wanted.take(k + 1)[w] == n);
            }
        }
        k += 1;
    }
    assert(wanted.take(names.len() as int) =~= wanted);
    assert forall|n: Seq<char>| #[trigger] wanted.contains(n) implies table_entries(found)[n]
        == Seq::<Seq<char>>::empty() && !table_entries(ended).contains_key(n) by {
        assert(table_entries(found).contains_key(n));
    }
    let mut i: usize = 0;
    while i < rows.len()
        invariant
            i <= rows.len(),
            wanted == name_texts(names@),
            marks == row_views(rows@),
            forall|n: Seq<char>| #[trigger]
                table_entries(found).contains_key(n) <==> wanted.contains(n),
            forall|n: Seq<char>| #[trigger]
                wanted.contains(n) ==> table_entries(found)[n] == walk_trail(
                    wanted,
                    marks,
                    n,
                    i as nat,
                ).saved && table_entries(ended).contains_key(n) == walk_trail(
                    wanted,
                    marks,
                    n,
                    i as nat,
                ).ended,
        decreases rows.len() - i,
    {
        let row = &rows[i];
        assert(marks[i as int].len() == row.len());
        let mut j: usize = 0;
        while j < names.len()
            invariant
                j <= names.len(),
                i < rows.len(),
                row == &rows[i as int],
                marks[i as int].len() == row.len(),
                wanted == name_texts(names@),
                marks == row_views(rows@),
                forall|n: Seq<char>| #[trigger]
                    table_entries(found).contains_key(n) <==> wanted.contains(n),
                forall|n: Seq<char>| #[trigger]
                    wanted.contains(n) ==> table_entries(found)[n] == row_trail(
                        wanted,
                        marks[i as int],
                        n,
                        walk_trail(wanted, marks, n, i as nat),
                        j as nat,
                    ).saved && table_entries(ended).contains_key(n) == row_trail(
                        wanted,
                        marks[i as int],
                        n,
                        walk_trail(wanted, marks, n, i as nat),
                        j as nat,
                    ).ended,
            decreases names.len() - j,
        {
            let name = names[j];
            assert(wanted[j as int] == name@);
            assert(j < row.len() ==> marks[i as int][j as int] == row@[j as int]@);
            let ghost old_found = table_entries(found);
            let ghost old_ended = table_entries(ended);
            if j < row.len() && !table_contains(&ended, name) {
                match &row[j] {
                    FindUpResult::Saved(path) => {
                        let mut list = match table_remove(&mut found, name) {
                            Some(list) => list,
                            None => Vec::new(),
                        };
                        let ghost shorter = texts(list@);
                        list.push(path.clone());
                        assert(texts(list@) =~= shorter.push(path@));
                        table_insert(&mut found, name.to_owned(), list);
                    },
                    FindUpResult::Continue => {},
                    FindUpResult::Stop => {
                        table_insert(&mut ended, name.to_owned(), Vec::new());
                    },
                }
            }
            assert forall|n: Seq<char>| #[trigger]
                wanted.contains(n) implies table_entries(found)[n] == row_trail(
                wanted,
                marks[i as int],
                n,
                walk_trail(wanted, marks, n, i as nat),
                (j + 1) as nat,
            ).saved && table_entries(ended).contains_key(n) == row_trail(
                wanted,
                marks[i as int],
                n,
                walk_trail(wanted, marks, n, i as nat),
                (j + 1) as nat,
            ).ended by {
                let before = row_trail(
                    wanted,
                    marks[i as int],
                    n,
                    walk_trail(wanted, marks, n, i as nat),
                    j as nat,
                );
                assert(old_found[n] == before.saved);
                assert(old_ended.contains_key(n) == before.ended);
            }
            j += 1;
        }
        i += 1;
    }
    assert(table_entries(found) =~= gathered(wanted, marks));
    found
}

/// Asks the filesystem about one candidate path: whether it exists and, if
/// so, whether it is a regular file and whether it is a directory. A query
/// that fails counts as a "no".
pub fn probe(path: &str) -> (seen: Probe)
    ensures
        !seen.exists ==> !seen.is_file && !seen.is_dir,
{
    if path_exists(path) {
        Probe::from_answers(true, path_is_file(path), path_is_dir(path))
    } else {
        Probe::from_answers(false, false, false)
    }
}

/// Asks the filesystem about the candidate of every name in every directory
/// of `dirs`, directory by directory.
pub fn observe(dirs: &Vec<String>, names: &[&str]) -> (seen: Vec<Vec<Probe>>)
    ensures
        seen.len() == dirs.len(),
        forall|i: int| 0 <= i < seen.len() ==> (#[trigger] seen[i]).len() == names.len(),
{
    let mut seen: Vec<Vec<Probe>> = Vec::new();
    let mut i: usize = 0;
    while i < dirs.len()
        invariant
            i <= dirs.len(),
            seen.len() == i,
            forall|r: int| 0 <= r < seen.len() ==> (#[trigger] seen[r]).len() == names.len(),
        decreases dirs.len() - i,
    {
        let mut row: Vec<Probe> = Vec::new();
        let mut j: usize = 0;
        while j < names.len()
            invariant
                i < dirs.len(),
                j <= names.len(),
                row.len() == j,
            decreases names.len() - j,
        {
            let candidate = join_path(dirs[i].as_str(), names[j]);
            row.push(probe(candidate.as_str()));
            j += 1;
        }
        seen.push(row);
        i += 1;
    }
    seen
}

fn seen_or_absent(seen: &Vec<Vec<Probe>>, i: usize, j: usize) -> (probe: Probe)
    ensures
        probe == seen_at(probe_views(seen@), i as int, j as int),
{
    if i < seen.len() && j < seen[i].len() {
        seen[i][j]
    } else {
        Probe { exists: false, is_file: false, is_dir: false }
    }
}

/// The verdicts of a walk over `dirs` for `names`, given what the filesystem
/// said of the candidates: `seen[i][j]` is the probe of the `j`-th name in
/// the `i`-th directory, and a candidate without a probe counts as absent.
pub fn judge_rows(dirs: &Vec<String>, names: &[&str], kind: FindUpKind, seen: &Vec<Vec<Probe>>) -> (rows:
    Vec<Vec<FindUpResult>>)
    ensures
        row_views(rows@) == verdicts(
            kind,
            texts(dirs@),
            name_texts(names@),
            probe_views(seen@),
        ),
{
    let ghost model = verdicts(kind, texts(dirs@), name_texts(names@), probe_views(seen@));
    let mut rows: Vec<Vec<FindUpResult>> = Vec::new();
    let mut i: usize = 0;
    while i < dirs.len()
        invariant
            i <= dirs.len(),
            rows.len() == i,
            model == verdicts(kind, texts(dirs@), name_texts(names@), probe_views(seen@)),
            row_views(rows@) =~= model.take(i as int),
        decreases dirs.len() - i,
    {
        let mut row: Vec<FindUpResult> = Vec::new();
        let mut j: usize = 0;
        while j < names.len()
            invariant
                i < dirs.len(),
                j <= names.len(),
                row.len() == j,
                model == verdicts(kind, texts(dirs@), name_texts(names@), probe_views(seen@)),
                row@.map_values(|verdict: FindUpResult| verdict@) =~= model[i as int].take(
                    j as int,
                ),
            decreases names.len() - j,
        {
            let candidate = join_path(dirs[i].as_str(), names[j]);
            let verdict = kind.judge(candidate, seen_or_absent(seen, i, j));
            row.push(verdict);
            j += 1;
        }
        assert(model[i as int].take(names.len() as int) =~= model[i as int]);
        rows.push(row);
        i += 1;
    }
    assert(model.take(dirs.len() as int) =~= model);
    rows
}

/// `depths` shows that `list` holds candidates of name `n` in the order of
/// the walk: the path at each position joins the directory at that position's
/// depth in `dirs` and `n`, and the depths never go down along the list.
pub open spec fn climbs(
    list: Seq<Seq<char>>,
    dirs: Seq<Seq<char>>,
    n: Seq<char>,
    depths: Seq<int>,
) -> bool {
    &&& depths.len() == list.len()
    &&& forall|k: int|
        0 <= k < list.len() ==> 0 <= #[trigger] depths[k] < dirs.len() && list[k] == joined_path(
            dirs[depths[k]],
            n,
        )
    &&& forall|a: int, b: int|
        0 <= a < b < list.len() ==> #[trigger] depths[a] <= #[trigger] depths[b]
}

/// The list is ordered from the nearest directory of `dirs` to the farthest:
/// of two paths of the list, the earlier one lies in the same directory as
/// the later one or in one nearer to the start.
pub open spec fn nearest_first(list: Seq<Seq<char>>, dirs: Seq<Seq<char>>, n: Seq<char>) -> bool {
    exists|depths: Seq<int>| climbs(list, dirs, n, depths)
}

proof fn lemma_row_climbs(
    kind: FindUpKind,
    dirs: Seq<Seq<char>>,
    names: Seq<Seq<char>>,
    seen: Seq<Seq<Probe>>,
    n: Seq<char>,
    i: nat,
    j: nat,
) -> (depths: Seq<int>)
    requires
        i < dirs.len(),
        j <= names.len(),
    ensures
        climbs(
            row_trail(
                names,
                verdicts(kind, dirs, names, seen)[i as int],
                n,
                walk_trail(names, verdicts(kind, dirs, names, seen), n, i),
                j,
            ).saved,
            dirs,
            n,
            depths,
        ),
        forall|k: int| 0 <= k < depths.len() ==> #[trigger] depths[k] <= i,
    decreases i, j + 1,
{
    let rows = verdicts(kind, dirs, names, seen);
    if j == 0 {
        lemma_walk_climbs(kind, dirs, names, seen, n, i)
    } else {
        let earlier = lemma_row_climbs(kind, dirs, names, seen, n, i, (j - 1) as nat);
        let before = row_trail(names, rows[i as int], n, walk_trail(names, rows, n, i), (j - 1) as nat);
        let verdict = verdict_at(rows[i as int], j - 1);
        assert(verdict == kind.verdict(
            joined_path(dirs[i as int], names[j - 1]),
            seen_at(seen, i as int, j - 1),
        ));
        if names[j - 1] == n && !before.ended && verdict is Saved {
            earlier.push(i as int)
        } else {
            earlier
        }
    }
}

proof fn lemma_walk_climbs(
    kind: FindUpKind,
    dirs: Seq<Seq<char>>,
    names: Seq<Seq<char>>,
    seen: Seq<Seq<Probe>>,
    n: Seq<char>,
    i: nat,
) -> (depths: Seq<int>)
    requires
        i <= dirs.len(),
    ensures
        climbs(walk_trail(names, verdicts(kind, dirs, names, seen), n, i).saved, dirs, n, depths),
        forall|k: int| 0 <= k < depths.len() ==> #[trigger] depths[k] < i,
    decreases i, 0nat,
{
    if i == 0 {
        Seq::empty()
    } else {
        lemma_row_climbs(kind, dirs, names, seen, n, (i - 1) as nat, names.len())
    }
}

/// Whatever the filesystem answers during a walk, the list of every name is
/// ordered from the nearest directory to the farthest, and each of its paths
/// is a candidate of that very name.
pub proof fn lemma_results_nearest_first(
    kind: FindUpKind,
    dirs: Seq<Seq<char>>,
    names: Seq<Seq<char>>,
    seen: Seq<Seq<Probe>>,
    n: Seq<char>,
)
    ensures
        nearest_first(saved_for(names, verdicts(kind, dirs, names, seen), n), dirs, n),
{
    let depths = lemma_walk_climbs(kind, dirs, names, seen, n, dirs.len());
    assert(climbs(saved_for(names, verdicts(kind, dirs, names, seen), n), dirs, n, depths));
}

/// A search that starts at a directory without a parent finds only what lies
/// in that directory.
pub proof fn lemma_root_search_stays_at_root(
    kind: FindUpKind,
    dir: Seq<char>,
    names: Seq<Seq<char>>,
    seen: Seq<Seq<Probe>>,
    n: Seq<char>,
)
    requires
        parent_path(dir).is_none(),
    ensures
        ancestors(dir) == seq![dir],
        forall|k: int|
            0 <= k < saved_for(names, verdicts(kind, ancestors(dir), names, seen), n).len()
                ==> #[trigger] saved_for(names, verdicts(kind, ancestors(dir), names, seen), n)[k]
                == joined_path(dir, n),
{
    let depths = lemma_walk_climbs(kind, ancestors(dir), names, seen, n, 1);
    assert forall|k: int|
        0 <= k < saved_for(
            names,
            verdicts(kind, ancestors(dir), names, seen),
            n,
        ).len() implies #[trigger] saved_for(
        names,
        verdicts(kind, ancestors(dir), names, seen),
        n,
    )[k] == joined_path(dir, n) by {
        assert(depths[k] == 0);
    }
}

/// The keys of the result are the requested names, no more and no fewer,
/// however many matches each name has.
pub proof fn lemma_keys_are_names(
    kind: FindUpKind,
    dirs: Seq<Seq<char>>,
    names: Seq<Seq<char>>,
    seen: Seq<Seq<Probe>>,
)
    ensures
        searched(kind, dirs, names, seen).dom() =~= names.to_set(),
{
}

/// The result depends on the filesystem only through its answers on the
/// candidates: two searches with the same kind, directories and names on
/// filesystems that answer alike on every candidate have the same result.
pub proof fn lemma_same_answers_same_result(
    kind: FindUpKind,
    dirs: Seq<Seq<char>>,
    names: Seq<Seq<char>>,
    first: Seq<Seq<Probe>>,
    second: Seq<Seq<Probe>>,
)
    requires
        forall|i: int, j: int|
            0 <= i < dirs.len() && 0 <= j < names.len() ==> seen_at(first, i, j) == seen_at(
                second,
                i,
                j,
            ),
    ensures
        searched(kind, dirs, names, first) == searched(kind, dirs, names, second),
{
    let one = verdicts(kind, dirs, names, first);
    let other = verdicts(kind, dirs, names, second);
    assert forall|i: int| 0 <= i < dirs.len() implies one[i] =~= other[i] by {
        assert forall|j: int| 0 <= j < names.len() implies one[i][j] == other[i][j] by {
            assert(seen_at(first, i, j) == seen_at(second, i, j));
        }
    }
    assert(one =~= other);
}

/// Matching is by kind: where the kind accepts no probe of the candidates of
/// a name, be it that they do not exist or that they are of another kind,
/// the list of that name is empty.
pub proof fn lemma_unaccepted_is_not_listed(
    kind: FindUpKind,
    dirs: Seq<Seq<char>>,
    names: Seq<Seq<char>>,
    seen: Seq<Seq<Probe>>,
    n: Seq<char>,
)
    requires
        forall|i: int, j: int|
            0 <= i < dirs.len() && 0 <= j < names.len() && names[j] == n ==> !kind.accepts(
                #[trigger] seen_at(seen, i, j),
            ),
    ensures
        saved_for(names, verdicts(kind, dirs, names, seen), n) == Seq::<Seq<char>>::empty(),
{
    lemma_unaccepted_walk(kind, dirs, names, seen, n, dirs.len());
}

proof fn lemma_unaccepted_row(
    kind: FindUpKind,
    dirs: Seq<Seq<char>>,
    names: Seq<Seq<char>>,
    seen: Seq<Seq<Probe>>,
    n: Seq<char>,
    i: nat,
    j: nat,
)
    requires
        forall|i: int, j: int|
            0 <= i < dirs.len() && 0 <= j < names.len() && names[j] == n ==> !kind.accepts(
                #[trigger] seen_at(seen, i, j),
            ),
        i < dirs.len(),
        j <= names.len(),
    ensures
        row_trail(
            names,
            verdicts(kind, dirs, names, seen)[i as int],
            n,
            walk_trail(names, verdicts(kind, dirs, names, seen), n, i),
            j,
        ).saved == Seq::<Seq<char>>::empty(),
    decreases i, j + 1,
{
    if j == 0 {
        lemma_unaccepted_walk(kind, dirs, names, seen, n, i);
    } else {
        lemma_unaccepted_row(kind, dirs, names, seen, n, i, (j - 1) as nat);
        assert(names[j - 1] == n ==> !kind.accepts(seen_at(seen, i as int, j - 1)));
    }
}

proof fn lemma_unaccepted_walk(
    kind: FindUpKind,
    dirs: Seq<Seq<char>>,
    names: Seq<Seq<char>>,
    seen: Seq<Seq<Probe>>,
    n: Seq<char>,
    i: nat,
)
    requires
        forall|i: int, j: int|
            0 <= i < dirs.len() && 0 <= j < names.len() && names[j] == n ==> !kind.accepts(
                #[trigger] seen_at(seen, i, j),
            ),
        i <= dirs.len(),
    ensures
        walk_trail(names, verdicts(kind, dirs, names, seen), n, i).saved == Seq::<
            Seq<char>,
        >::empty(),
    decreases i, 0nat,
{
    if i > 0 {
        lemma_unaccepted_row(kind, dirs, names, seen, n, (i - 1) as nat, names.len());
    }
}

} // verus!
