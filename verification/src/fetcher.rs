//! What is asked of the registry, and what is kept of an archive.
//!
//! The registry answers two questions: which version of a package is the
//! latest, and what is in the archive of a package at a version. Asking is
//! the caller's part; this module says where to ask and what to make of the
//! answers.

use crate::reader::{check_relative_path, path_error};
use crate::storage::{make_key, package_key};
use crate::text::{concat2, concat3, from_chars, has_prefix, starts_with, to_chars};
use vstd::prelude::*;
use vstd::string::*;

verus! {

/// What the registry is told about the program that asks.
pub const USER_AGENT: &'static str = "crate-indexer/0.1.0";

/// Where the registry describes the package `name`.
pub open spec fn info_url(name: Seq<char>) -> Seq<char> {
    "https://crates.io/api/v1/crates/"@ + name
}

/// Where the registry keeps the archive of `name` at `version`.
pub open spec fn archive_url(name: Seq<char>, version: Seq<char>) -> Seq<char> {
    "https://static.crates.io/crates/"@ + name + "/"@ + package_key(name, version) + ".crate"@
}

/// Where the registry describes the package `name`.
pub fn crate_info_url(name: &str) -> (r: String)
    ensures
        r@ == info_url(name@),
{
    concat2("https://crates.io/api/v1/crates/", name)
}

/// Where the registry keeps the archive of `name` at `version`.
pub fn download_url(name: &str, version: &str) -> (r: String)
    ensures
        r@ == archive_url(name@, version@),
{
    let key = make_key(name, version);
    let mut out = concat3("https://static.crates.io/crates/", name, "/");
    out.append(key.as_str());
    out.append(".crate");
    out
}

/// The latest version of a package: its highest stable version where it
/// has one, its highest version otherwise.
pub fn latest_version(max_stable_version: Option<String>, max_version: String) -> (r: String)
    ensures
        r == match max_stable_version {
            Some(v) => v,
            None => max_version,
        },
{
    match max_stable_version {
        Some(v) => v,
        None => max_version,
    }
}

/// The directory that the archive of `name` at `version` holds everything
/// in: the package key and a slash.
pub open spec fn archive_prefix(name: Seq<char>, version: Seq<char>) -> Seq<char> {
    package_key(name, version) + seq!['/']
}

/// Where an entry of the archive of `name` at `version` is unpacked to,
/// relative to the package's directory: the entry's path without the
/// archive's directory. An entry outside that directory is left out: one
/// whose path does not start with the directory, the directory itself, and
/// one whose path steps out again through a `..` or starts anew at the
/// root of the file system.
pub open spec fn entry_target_of(entry: Seq<char>, name: Seq<char>, version: Seq<char>) -> Option<
    Seq<char>,
> {
    let prefix = archive_prefix(name, version);
    if starts_with(entry, prefix) && entry.len() > prefix.len() && path_error(
        entry.skip(prefix.len() as int),
    ).is_none() {
        Some(entry.skip(prefix.len() as int))
    } else {
        None
    }
}

/// Whatever an archive holds, nothing is unpacked outside the package's
/// directory: the target of an entry is a path below that directory,
/// without a step to a parent directory and not starting at the root.
pub proof fn law_target_stays_inside(entry: Seq<char>, name: Seq<char>, version: Seq<char>)
    ensures
        entry_target_of(entry, name, version) matches Some(target) ==> path_error(target).is_none()
            && target.len() > 0 && entry == archive_prefix(name, version) + target,
{
    let prefix = archive_prefix(name, version);
    if let Some(target) = entry_target_of(entry, name, version) {
        assert(entry =~= prefix + target);
    }
}

/// Where the entry `entry_path` of the archive of `name` at `version` is
/// unpacked to, if it is unpacked at all.
pub fn entry_target(entry_path: &str, name: &str, version: &str) -> (r: Option<String>)
    ensures
        crate::storage::opt_text(r) == entry_target_of(entry_path@, name@, version@),
{
    proof {
        reveal_strlit("/");
        assert("/"@ == seq!['/']);
    }
    let key = make_key(name, version);
    let prefix = to_chars(concat2(key.as_str(), "/").as_str());
    let entry = to_chars(entry_path);
    if has_prefix(&entry, &prefix) && entry.len() > prefix.len() {
        let r = from_chars(&entry, prefix.len(), entry.len());
        assert(entry@.subrange(prefix.len() as int, entry.len() as int) == entry@.skip(
            prefix.len() as int,
        ));
        match check_relative_path(r.as_str()) {
            Ok(()) => Some(r),
            Err(_) => None,
        }
    } else {
        None
    }
}

} // verus!
