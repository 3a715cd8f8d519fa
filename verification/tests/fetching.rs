use crate_indexer::fetcher::{crate_info_url, download_url, entry_target, latest_version, USER_AGENT};

#[test]
fn registry_addresses() {
    assert_eq!(crate_info_url("serde"), "https://crates.io/api/v1/crates/serde");
    assert_eq!(
        download_url("serde_json", "1.0.108"),
        "https://static.crates.io/crates/serde_json/serde_json-1.0.108.crate"
    );
    assert_eq!(USER_AGENT, "crate-indexer/0.1.0");
}

#[test]
fn stable_version_is_preferred() {
    assert_eq!(latest_version(Some("1.4.0".to_string()), "2.0.0-rc.1".to_string()), "1.4.0");
    assert_eq!(latest_version(None, "0.1.0-alpha".to_string()), "0.1.0-alpha");
}

#[test]
fn entries_lose_the_archive_directory() {
    assert_eq!(entry_target("foo-1.0.0/src/lib.rs", "foo", "1.0.0"), Some("src/lib.rs".to_string()));
    assert_eq!(entry_target("foo-1.0.0/Cargo.toml", "foo", "1.0.0"), Some("Cargo.toml".to_string()));
}

#[test]
fn entries_outside_the_archive_directory_are_left_out() {
    assert_eq!(entry_target("foo-1.0.0/", "foo", "1.0.0"), None);
    assert_eq!(entry_target("foo-1.0.0", "foo", "1.0.0"), None);
    assert_eq!(entry_target("foo-1.0.1/src/lib.rs", "foo", "1.0.0"), None);
    assert_eq!(entry_target("other/foo-1.0.0/src/lib.rs", "foo", "1.0.0"), None);
    assert_eq!(entry_target("/etc/passwd", "foo", "1.0.0"), None);
    assert_eq!(entry_target("", "foo", "1.0.0"), None);
}

#[test]
fn entries_that_step_out_of_the_archive_directory_are_left_out() {
    assert_eq!(entry_target("foo-1.0.0/../../evil.rs", "foo", "1.0.0"), None);
    assert_eq!(entry_target("foo-1.0.0/..", "foo", "1.0.0"), None);
    assert_eq!(entry_target("foo-1.0.0/src/../../evil.rs", "foo", "1.0.0"), None);
    assert_eq!(entry_target("foo-1.0.0//etc/passwd", "foo", "1.0.0"), None);
    assert_eq!(entry_target("other/evil.rs", "foo", "1.0.0"), None);
    // Dots that are no step to a parent are part of a name.
    assert_eq!(entry_target("foo-1.0.0/src/..hidden.rs", "foo", "1.0.0"), Some("src/..hidden.rs".to_string()));
    assert_eq!(entry_target("foo-1.0.0/a...b/c", "foo", "1.0.0"), Some("a...b/c".to_string()));
}
