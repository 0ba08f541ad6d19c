use find_up::kind::Probe;
use find_up::paths::ancestor_chain;
use find_up::walk::gather;
use find_up::walk::probe;
use find_up::walk::judge_rows;
use find_up::walk::observe;
use find_up::FindUpKind;
use find_up::FindUpResult;
use find_up::UpFinder;

fn strings(items: &[&str]) -> Vec<String> {
    items.iter().map(|s| s.to_string()).collect()
}

fn saved(path: &str) -> FindUpResult {
    FindUpResult::Saved(path.to_string())
}

const FILE: Probe = Probe { exists: true, is_file: true, is_dir: false };
const DIR: Probe = Probe { exists: true, is_file: false, is_dir: true };
const OTHER: Probe = Probe { exists: true, is_file: false, is_dir: false };
const ABSENT: Probe = Probe { exists: false, is_file: false, is_dir: false };

#[test]
fn builder_defaults_to_files() {
    let finder = UpFinder::builder().cwd(".").build();
    assert_eq!(finder.cwd, ".");
    assert_eq!(finder.kind, FindUpKind::File);
}

#[test]
fn builder_takes_kind_before_or_after_cwd() {
    let first = UpFinder::builder().kind(FindUpKind::Dir).cwd("x/y").build();
    let second = UpFinder::builder().cwd("x/y").kind(FindUpKind::Dir).build();
    assert_eq!(first.cwd, "x/y");
    assert_eq!(first.kind, FindUpKind::Dir);
    assert_eq!(second.cwd, "x/y");
    assert_eq!(second.kind, FindUpKind::Dir);
}

#[test]
fn chain_goes_up_to_the_empty_path() {
    assert_eq!(
        ancestor_chain("fixtures/a/b/c/d".to_string()),
        strings(&["fixtures/a/b/c/d", "fixtures/a/b/c", "fixtures/a/b", "fixtures/a", "fixtures", ""])
    );
}

#[test]
fn chain_goes_up_to_the_root() {
    assert_eq!(ancestor_chain("/usr/lib".to_string()), strings(&["/usr/lib", "/usr", "/"]));
}

#[test]
fn chain_of_the_root_is_the_root() {
    assert_eq!(ancestor_chain("/".to_string()), strings(&["/"]));
}

#[test]
fn chain_of_the_empty_path_is_itself() {
    assert_eq!(ancestor_chain(String::new()), strings(&[""]));
}

#[test]
fn judge_saves_a_file_when_files_are_asked_for() {
    let verdict = FindUpKind::File.judge("a/package.json".to_string(), FILE);
    assert!(matches!(verdict, FindUpResult::Saved(path) if path == "a/package.json"));
}

#[test]
fn judge_saves_a_directory_when_directories_are_asked_for() {
    let verdict = FindUpKind::Dir.judge("fixtures/a".to_string(), DIR);
    assert!(matches!(verdict, FindUpResult::Saved(path) if path == "fixtures/a"));
}

#[test]
fn judge_passes_over_the_wrong_kind() {
    assert!(matches!(FindUpKind::Dir.judge("p".to_string(), FILE), FindUpResult::Continue));
    assert!(matches!(FindUpKind::File.judge("p".to_string(), DIR), FindUpResult::Continue));
}

#[test]
fn judge_passes_over_what_is_neither_file_nor_directory() {
    assert!(matches!(FindUpKind::Dir.judge("p".to_string(), OTHER), FindUpResult::Continue));
    assert!(matches!(FindUpKind::File.judge("p".to_string(), OTHER), FindUpResult::Continue));
}

#[test]
fn judge_passes_over_what_does_not_exist() {
    assert!(matches!(FindUpKind::Dir.judge("p".to_string(), ABSENT), FindUpResult::Continue));
    assert!(matches!(FindUpKind::File.judge("p".to_string(), ABSENT), FindUpResult::Continue));
    let odd = Probe { exists: false, is_file: true, is_dir: true };
    assert!(matches!(FindUpKind::File.judge("p".to_string(), odd), FindUpResult::Continue));
}

#[test]
fn probe_of_the_root_is_a_directory() {
    assert_eq!(probe("/"), DIR);
}

#[test]
fn probe_of_nothing_is_absent() {
    assert_eq!(probe("/no-such-entry-below-the-root"), ABSENT);
}

#[test]
fn observe_has_a_probe_for_each_directory_and_name() {
    let dirs = strings(&["/no-such-dir/deeper", "/no-such-dir", "/"]);
    let seen = observe(&dirs, &["x-not-there", "."]);
    assert_eq!(seen, vec![vec![ABSENT, ABSENT], vec![ABSENT, ABSENT], vec![ABSENT, DIR]]);
}

#[test]
fn judge_rows_saves_the_joined_path() {
    let dirs = strings(&["fixtures/a/b", "fixtures/a", "/"]);
    let seen = vec![vec![FILE, DIR], vec![ABSENT, FILE], vec![FILE, OTHER]];
    let rows = judge_rows(&dirs, &["x", "y"], FindUpKind::File, &seen);
    assert_eq!(rows.len(), 3);
    assert!(matches!(&rows[0][0], FindUpResult::Saved(path) if path == "fixtures/a/b/x"));
    assert!(matches!(&rows[0][1], FindUpResult::Continue));
    assert!(matches!(&rows[1][0], FindUpResult::Continue));
    assert!(matches!(&rows[1][1], FindUpResult::Saved(path) if path == "fixtures/a/y"));
    assert!(matches!(&rows[2][0], FindUpResult::Saved(path) if path == "/x"));
    assert!(matches!(&rows[2][1], FindUpResult::Continue));
}

#[test]
fn judge_rows_counts_a_missing_probe_as_absent() {
    let dirs = strings(&["a/b", "a"]);
    let seen = vec![vec![DIR]];
    let rows = judge_rows(&dirs, &["x", "y"], FindUpKind::Dir, &seen);
    assert_eq!(rows.len(), 2);
    assert!(matches!(&rows[0][0], FindUpResult::Saved(path) if path == "a/b/x"));
    assert!(matches!(&rows[0][1], FindUpResult::Continue));
    assert!(matches!(&rows[1][0], FindUpResult::Continue));
    assert!(matches!(&rows[1][1], FindUpResult::Continue));
}

#[test]
fn gather_lists_matches_nearest_first() {
    let rows = vec![
        vec![saved("fixtures/a/b/c/d/package.json"), FindUpResult::Continue],
        vec![saved("fixtures/a/b/c/package.json"), FindUpResult::Continue],
        vec![saved("fixtures/a/b/package.json"), FindUpResult::Continue],
        vec![saved("fixtures/a/package.json"), saved("fixtures/a/.node-version")],
        vec![FindUpResult::Continue, FindUpResult::Continue],
        vec![FindUpResult::Continue, FindUpResult::Continue],
    ];
    let found = gather(&["package.json", ".node-version"], &rows);
    assert_eq!(found.len(), 2);
    assert_eq!(
        found.get("package.json"),
        Some(&strings(&[
            "fixtures/a/b/c/d/package.json",
            "fixtures/a/b/c/package.json",
            "fixtures/a/b/package.json",
            "fixtures/a/package.json",
        ]))
    );
    assert_eq!(found.get(".node-version"), Some(&strings(&["fixtures/a/.node-version"])));
}

#[test]
fn gather_keeps_a_name_without_a_match() {
    let rows = vec![
        vec![FindUpResult::Continue, FindUpResult::Continue],
        vec![FindUpResult::Continue, FindUpResult::Continue],
    ];
    let found = gather(&["package.json", ".node-version"], &rows);
    assert_eq!(found.len(), 2);
    assert_eq!(found.get("package.json"), Some(&Vec::<String>::new()));
    assert_eq!(found.get(".node-version"), Some(&Vec::<String>::new()));
}

#[test]
fn gather_without_rows_has_every_name() {
    let rows: Vec<Vec<FindUpResult>> = Vec::new();
    let found = gather(&["a", "b"], &rows);
    assert_eq!(found.len(), 2);
    assert_eq!(found.get("a"), Some(&Vec::<String>::new()));
}

#[test]
fn gather_without_names_is_empty() {
    let rows: Vec<Vec<FindUpResult>> = vec![vec![], vec![]];
    let names: [&str; 0] = [];
    assert_eq!(gather(&names, &rows).len(), 0);
}

#[test]
fn stop_ends_one_name_and_no_other() {
    let rows = vec![
        vec![saved("d/x"), saved("d/y")],
        vec![FindUpResult::Stop, FindUpResult::Continue],
        vec![saved("x"), saved("y")],
    ];
    let found = gather(&["x", "y"], &rows);
    assert_eq!(found.get("x"), Some(&strings(&["d/x"])));
    assert_eq!(found.get("y"), Some(&strings(&["d/y", "y"])));
}

#[test]
fn a_name_given_twice_has_one_key() {
    let rows = vec![
        vec![saved("d/x"), saved("d/x")],
        vec![FindUpResult::Continue, FindUpResult::Continue],
        vec![saved("x"), saved("x")],
    ];
    let found = gather(&["x", "x"], &rows);
    assert_eq!(found.len(), 1);
    assert_eq!(found.get("x"), Some(&strings(&["d/x", "d/x", "x", "x"])));
}

#[test]
fn gather_passes_over_candidates_without_a_verdict() {
    let rows = vec![vec![saved("d/x")], vec![], vec![saved("x"), saved("y"), saved("z")]];
    let found = gather(&["x", "y"], &rows);
    assert_eq!(found.len(), 2);
    assert_eq!(found.get("x"), Some(&strings(&["d/x", "x"])));
    assert_eq!(found.get("y"), Some(&strings(&["y"])));
}

#[test]
fn nothing_is_saved_for_a_name_after_its_stop() {
    let rows = vec![
        vec![FindUpResult::Stop, FindUpResult::Continue],
        vec![saved("c/x"), FindUpResult::Stop],
        vec![saved("x"), saved("y")],
    ];
    let found = gather(&["x", "y"], &rows);
    assert_eq!(found.len(), 2);
    assert_eq!(found.get("x"), Some(&Vec::<String>::new()));
    assert_eq!(found.get("y"), Some(&Vec::<String>::new()));
}

#[test]
fn a_probe_keeps_the_answers_on_a_path_that_exists() {
    assert_eq!(Probe::from_answers(true, true, false), FILE);
    assert_eq!(Probe::from_answers(true, false, true), DIR);
    assert_eq!(Probe::from_answers(true, false, false), OTHER);
    assert_eq!(
        Probe::from_answers(true, true, true),
        Probe { exists: true, is_file: true, is_dir: true }
    );
}

#[test]
fn a_probe_of_a_path_that_does_not_exist_is_absent() {
    assert_eq!(Probe::from_answers(false, false, false), ABSENT);
    assert_eq!(Probe::from_answers(false, true, false), ABSENT);
    assert_eq!(Probe::from_answers(false, false, true), ABSENT);
    assert_eq!(Probe::from_answers(false, true, true), ABSENT);
}
