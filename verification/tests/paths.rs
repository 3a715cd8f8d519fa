use crate_indexer::storage::{crate_path_in, crates_dir_in, db_path, db_path_in, index_dir_in, join_paths};

#[test]
fn index_dir_lies_under_home() {
    assert_eq!(index_dir_in(Some("/home/ann")), "/home/ann/.crate-indexer");
    assert_eq!(index_dir_in(Some("/home/ann/")), "/home/ann/.crate-indexer");
    assert_eq!(index_dir_in(None), "./.crate-indexer");
}

#[test]
fn catalog_file_and_package_directories() {
    assert_eq!(db_path_in("/h/.crate-indexer"), "/h/.crate-indexer/index.db");
    assert_eq!(crates_dir_in("/h/.crate-indexer"), "/h/.crate-indexer/crates");
    assert_eq!(crate_path_in("/h/c", "serde", "1.0.0"), "/h/c/serde-1.0.0");
    assert!(db_path().ends_with(".crate-indexer/index.db"));
}

#[test]
fn absolute_relative_part_replaces_base() {
    assert_eq!(join_paths("/a/b", "/etc"), "/etc");
    assert_eq!(join_paths("", "x"), "x");
}
