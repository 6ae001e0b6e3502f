use sourcelynk::resolve::{relative_path, select_repositories, SourceLookup};

fn lookup(root: Option<&str>, committed: bool) -> SourceLookup {
    SourceLookup { root: root.map(|r| r.to_string()), committed }
}

#[test]
fn many_files_in_one_tree_give_one_repository() {
    let lookups: Vec<SourceLookup> = (0..5).map(|_| lookup(Some("/src/app/"), true)).collect();
    assert_eq!(select_repositories(&lookups), vec![0]);
}

#[test]
fn uncommitted_file_excluded_but_committed_sibling_counts() {
    let lookups = vec![lookup(Some("/src/app/"), false), lookup(Some("/src/app/"), true)];
    assert_eq!(select_repositories(&lookups), vec![1]);
    let only_uncommitted = vec![lookup(Some("/src/app/"), false)];
    assert_eq!(select_repositories(&only_uncommitted), Vec::<usize>::new());
}

#[test]
fn files_outside_any_tree_are_skipped() {
    let lookups = vec![lookup(None, false), lookup(None, true), lookup(Some("/a/"), true)];
    assert_eq!(select_repositories(&lookups), vec![2]);
}

#[test]
fn distinct_trees_in_first_seen_order() {
    let lookups = vec![
        lookup(Some("/b/"), true),
        lookup(Some("/a/"), true),
        lookup(Some("/b/"), true),
        lookup(Some("/c/"), false),
        lookup(Some("/a/"), true),
        lookup(Some("/c/"), true),
    ];
    assert_eq!(select_repositories(&lookups), vec![0, 1, 5]);
}

#[test]
fn empty_input_gives_nothing() {
    assert_eq!(select_repositories(&Vec::new()), Vec::<usize>::new());
}

#[test]
fn relative_paths() {
    assert_eq!(relative_path("/src/app/lib/a.c", "/src/app/"), Some("lib/a.c".to_string()));
    assert_eq!(relative_path("/src/app/lib/a.c", "/src/app"), Some("lib/a.c".to_string()));
    assert_eq!(relative_path("/src/application/a.c", "/src/app"), None);
    assert_eq!(relative_path("/other/a.c", "/src/app/"), None);
    assert_eq!(relative_path("/src/app", "/src/app"), Some(String::new()));
}
