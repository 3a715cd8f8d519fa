use crate_indexer::database::Database;
use crate_indexer::reader::{
    check_relative_path, extract_crate_name, in_window, line_window, lines_after, pick_readme,
    plan_lookup, plan_upgrade, readme_names, source_range, stays_within, truncate,
    user_specified_version,
    InvalidPath, LineWindow, LookupPlan, UpgradePlan,
};
use crate_indexer::storage::CrateItems;

#[test]
fn paths_below_the_root_are_accepted() {
    assert_eq!(check_relative_path("src/lib.rs"), Ok(()));
    assert_eq!(check_relative_path("README.md"), Ok(()));
    assert_eq!(check_relative_path(""), Ok(()));
    assert_eq!(check_relative_path("./src/..hidden/a..b/...rs"), Ok(()));
    assert_eq!(check_relative_path("a/.../b"), Ok(()));
}

#[test]
fn parent_components_are_refused() {
    assert_eq!(check_relative_path(".."), Err(InvalidPath::ParentDir));
    assert_eq!(check_relative_path("../secret"), Err(InvalidPath::ParentDir));
    assert_eq!(check_relative_path("src/../../etc/passwd"), Err(InvalidPath::ParentDir));
    assert_eq!(check_relative_path("src/.."), Err(InvalidPath::ParentDir));
    assert_eq!(check_relative_path("src//../x"), Err(InvalidPath::ParentDir));
}

#[test]
fn absolute_paths_are_refused_as_such() {
    assert_eq!(check_relative_path("/etc/passwd"), Err(InvalidPath::Absolute));
    assert_eq!(check_relative_path("/"), Err(InvalidPath::Absolute));
    assert_eq!(check_relative_path("/a/../b"), Err(InvalidPath::Absolute));
}

#[test]
fn window_runs_from_start_to_end_within_the_file() {
    let whole = line_window(40, None, None, None);
    assert_eq!(whole, LineWindow { start_line: 1, end_line: 40, truncated: false });
    assert_eq!(line_window(40, Some(0), Some(10), None), LineWindow { start_line: 1, end_line: 10, truncated: false });
    assert_eq!(line_window(40, Some(5), Some(99), Some(500)), LineWindow { start_line: 5, end_line: 40, truncated: false });
    assert_eq!(line_window(0, None, None, None), LineWindow { start_line: 1, end_line: 0, truncated: false });
}

#[test]
fn window_without_an_end_shows_one_page() {
    assert_eq!(line_window(1200, None, None, Some(500)), LineWindow { start_line: 1, end_line: 500, truncated: true });
    assert_eq!(line_window(1200, Some(501), None, Some(500)), LineWindow { start_line: 501, end_line: 1000, truncated: true });
    assert_eq!(line_window(1200, Some(701), None, Some(500)), LineWindow { start_line: 701, end_line: 1200, truncated: false });
    assert_eq!(line_window(300, None, None, Some(500)), LineWindow { start_line: 1, end_line: 300, truncated: false });
    assert_eq!(line_window(300, Some(usize::MAX), None, Some(usize::MAX)), LineWindow { start_line: usize::MAX, end_line: 300, truncated: false });
}

#[test]
fn lines_are_counted_against_the_window() {
    let w = line_window(100, Some(10), Some(20), None);
    assert!(!in_window(&w, 9));
    assert!(in_window(&w, 10));
    assert!(in_window(&w, 20));
    assert!(!in_window(&w, 21));
    assert_eq!(lines_after(&w, 100), 80);
    assert_eq!(lines_after(&line_window(100, None, None, None), 100), 0);
}

#[test]
fn source_of_a_declaration_stays_within_the_file() {
    assert_eq!(source_range(100, 10, Some(15), 20), (9, 15));
    assert_eq!(source_range(100, 10, None, 20), (9, 30));
    assert_eq!(source_range(12, 10, None, 30), (9, 12));
    assert_eq!(source_range(100, 0, Some(3), 20), (0, 3));
    assert_eq!(source_range(5, 10, Some(12), 20), (5, 5));
    assert_eq!(source_range(100, 10, Some(4), 20), (4, 4));
    assert_eq!(source_range(100, usize::MAX, None, 20), (100, 100));
}

#[test]
fn version_is_told_by_a_digit_after_the_last_hyphen() {
    assert!(user_specified_version("anyhow-1.0.100"));
    assert!(user_specified_version("serde-json-0.9"));
    assert!(!user_specified_version("anyhow"));
    assert!(!user_specified_version("serde-json"));
    assert!(!user_specified_version("trailing-"));
    assert!(!user_specified_version("x-1-beta"));
    assert!(!user_specified_version(""));
}

#[test]
fn name_is_the_key_without_its_version() {
    assert_eq!(extract_crate_name("anyhow-1.0.100"), "anyhow");
    assert_eq!(extract_crate_name("serde-json-1.0.0"), "serde-json");
    assert_eq!(extract_crate_name("serde-json"), "serde-json");
    assert_eq!(extract_crate_name("plain"), "plain");
    assert_eq!(extract_crate_name("-1"), "");
    assert_eq!(extract_crate_name("foo-1.0.0-beta"), "foo-1.0.0-beta");
}

#[test]
fn long_texts_are_cut_with_three_dots() {
    assert_eq!(truncate("short", 80), "short");
    assert_eq!(truncate("exactly ten", 11), "exactly ten");
    assert_eq!(truncate("one more than ten", 10), "one mor...");
    assert_eq!(truncate("abcdef", 2), "...");
    assert_eq!(truncate("", 0), "");
    // Length is counted in bytes, the cut in characters.
    assert_eq!(truncate("ééééé", 9), "ééééé");
    assert_eq!(truncate("éééééééééé", 9), "éééééé...");
}

#[test]
fn introduction_is_looked_for_under_eight_names() {
    let wanted = vec!["README.md", "README.markdown", "README.txt", "README", "readme.md", "readme.markdown", "readme.txt", "readme"];
    assert_eq!(readme_names(), wanted);
    assert_eq!(pick_readme(&vec![false, false, true, false, true, false, false, false]), Some(2));
    assert_eq!(pick_readme(&vec![false; 8]), None);
    assert_eq!(pick_readme(&vec![]), None);
}

fn catalog(keys: &[&str]) -> Database {
    let mut db = Database::new();
    for key in keys {
        db.add_crate(key, "/p", &CrateItems::new(), &[]).unwrap();
    }
    db
}

#[test]
fn request_is_planned_from_what_is_stored() {
    let db = catalog(&["foo-1.0.0", "bar-1.0.0", "bar-2.0.0"]);
    assert_eq!(plan_lookup(&db, "foo-1.0.0"), Ok(LookupPlan::Use("foo-1.0.0".to_string())));
    assert_eq!(
        plan_lookup(&db, "foo"),
        Ok(LookupPlan::CheckLatest { key: "foo-1.0.0".to_string(), crate_name: "foo".to_string() })
    );
    assert_eq!(plan_lookup(&db, "baz"), Ok(LookupPlan::Fetch("baz".to_string())));
    assert_eq!(plan_lookup(&db, "baz-0.1.0"), Ok(LookupPlan::Fetch("baz-0.1.0".to_string())));
    let error = plan_lookup(&db, "bar").unwrap_err();
    assert_eq!(error.candidates, vec!["bar-1.0.0".to_string(), "bar-2.0.0".to_string()]);
}

#[test]
fn newer_version_is_fetched_unless_stored() {
    let db = catalog(&["foo-1.0.0", "foo-1.1.0"]);
    let use_key = |k: &str| Ok(UpgradePlan::Use(k.to_string()));
    assert_eq!(plan_upgrade(&db, "foo-1.0.0", "foo", None), use_key("foo-1.0.0"));
    assert_eq!(plan_upgrade(&db, "foo-1.0.0", "foo", Some("1.0.0")), use_key("foo-1.0.0"));
    assert_eq!(plan_upgrade(&db, "foo-1.0.0", "foo", Some("1.1.0")), use_key("foo-1.1.0"));
    assert_eq!(
        plan_upgrade(&db, "foo-1.0.0", "foo", Some("2.0.0")),
        Ok(UpgradePlan::FetchThenUse {
            crate_name: "foo".to_string(),
            version: "2.0.0".to_string(),
            key: "foo-2.0.0".to_string(),
        })
    );
}

#[test]
fn resolved_path_must_stay_within_the_root() {
    assert!(stays_within("/c/foo-1.0.0", "/c/foo-1.0.0/src/lib.rs"));
    assert!(stays_within("/c/foo-1.0.0", "/c/foo-1.0.0"));
    assert!(stays_within("/c/foo-1.0.0/", "/c/foo-1.0.0/README.md"));
    assert!(stays_within("/", "/etc"));
    assert!(!stays_within("/c/foo-1.0.0", "/c/foo-1.0.0-evil/src/lib.rs"));
    assert!(!stays_within("/c/foo-1.0.0", "/c/foo"));
    assert!(!stays_within("/c/foo-1.0.0", "/etc/passwd"));
}
