//! Reading from stored packages: which key a request means, which file
//! paths may be read, and which lines of a file are shown.

use crate::database::{resolve, AmbiguousReference, Database};
use crate::storage::{make_key, package_key};
use crate::text::{
    char_is_digit, concat2, copy_str, from_chars, has_prefix, is_digit, starts_with, to_chars,
};
use vstd::prelude::*;
use vstd::string::*;

verus! {

/// Why a path into a package is refused.
#[derive(Debug, Clone, Copy, PartialEq, Eq, Structural)]
pub enum InvalidPath {
    /// The path has a component that names the parent directory.
    ParentDir,
    /// The path starts at the root of the file system.
    Absolute,
}

/// Whether a component of the `/`-separated path `s` is `..`.
pub open spec fn has_parent_component(s: Seq<char>) -> bool {
    exists|i: int| #[trigger] is_parent_at(s, i)
}

/// Whether the component of `s` that starts at `i` is `..`.
pub open spec fn is_parent_at(s: Seq<char>, i: int) -> bool {
    &&& 0 <= i
    &&& i + 2 <= s.len()
    &&& s[i] == '.'
    &&& s[i + 1] == '.'
    &&& (i == 0 || s[i - 1] == '/')
    &&& (i + 2 == s.len() || s[i + 2] == '/')
}

/// Why the path `s` is refused, if it is: an absolute path is refused as
/// such, any other path for a `..` among its components.
pub open spec fn path_error(s: Seq<char>) -> Option<InvalidPath> {
    if s.len() > 0 && s[0] == '/' {
        Some(InvalidPath::Absolute)
    } else if has_parent_component(s) {
        Some(InvalidPath::ParentDir)
    } else {
        None
    }
}

/// Accepts `path` as a path below a package root, or says why it is not:
/// it must neither start at the root of the file system nor step to a
/// parent directory.
pub fn check_relative_path(path: &str) -> (r: Result<(), InvalidPath>)
    ensures
        r == match path_error(path@) {
            Some(e) => Err::<(), InvalidPath>(e),
            None => Ok::<(), InvalidPath>(()),
        },
{
    let v = to_chars(path);
    let n = v.len();
    if n > 0 && v[0] == '/' {
        return Err(InvalidPath::Absolute);
    }
    let mut i: usize = 0;
    while i < n
        invariant
            i <= n,
            n == v.len(),
            v@ == path@,
            !(n > 0 && v@[0] == '/'),
            forall|k: int| 0 <= k < i ==> !is_parent_at(v@, k),
        decreases n - i,
    {
        if n - i >= 2 && v[i] == '.' && v[i + 1] == '.' && (i == 0 || v[i - 1] == '/') && (i + 2
            == n || v[i + 2] == '/') {
            assert(is_parent_at(v@, i as int));
            return Err(InvalidPath::ParentDir);
        }
        i += 1;
    }
    assert(!has_parent_component(v@));
    Ok(())
}

/// Whether the resolved path `path` lies in the directory `root` or is
/// that directory: whether `path` is `root`, or goes on after `root` with a
/// new component.
pub open spec fn is_within(root: Seq<char>, path: Seq<char>) -> bool {
    starts_with(path, root) && (path.len() == root.len() || (root.len() > 0 && root.last() == '/')
        || path[root.len() as int] == '/')
}

/// Whether the resolved path `path` stays within the package root `root`.
/// Both are to be given in resolved form, without symbolic links and
/// without `.` or `..`.
pub fn stays_within(root: &str, path: &str) -> (r: bool)
    ensures
        r == is_within(root@, path@),
{
    let r = to_chars(root);
    let p = to_chars(path);
    if !has_prefix(&p, &r) {
        return false;
    }
    p.len() == r.len() || (r.len() > 0 && r[r.len() - 1] == '/') || p[r.len()] == '/'
}

/// The lines of a file to show, counted from one: from `start_line` to
/// `end_line`, both included. `truncated` tells that the end was chosen
/// because none was asked for and the file goes on.
#[derive(Debug, Clone, Copy, PartialEq, Eq, Structural)]
pub struct LineWindow {
    pub start_line: usize,
    pub end_line: usize,
    pub truncated: bool,
}

/// The smaller of two numbers.
pub open spec fn min_of(a: int, b: int) -> int {
    if a <= b {
        a
    } else {
        b
    }
}

/// The first line to show: the one asked for, but at least line one.
pub open spec fn first_line(start: Option<usize>) -> int {
    match start {
        Some(s) => if s < 1 {
            1
        } else {
            s as int
        },
        None => 1,
    }
}

/// The window of a file of `total` lines for a request from `start` to
/// `end`. Without an `end` the window runs to the end of the file, or,
/// where a `page` is given, for at most that many lines.
pub open spec fn window_of(
    total: usize,
    start: Option<usize>,
    end: Option<usize>,
    page: Option<usize>,
) -> LineWindow {
    let first = first_line(start);
    match end {
        Some(e) => LineWindow {
            start_line: first as usize,
            end_line: min_of(e as int, total as int) as usize,
            truncated: false,
        },
        None => match page {
            Some(p) => {
                let last = min_of(first + p - 1, total as int);
                LineWindow {
                    start_line: first as usize,
                    end_line: last as usize,
                    truncated: last < total,
                }
            },
            None => LineWindow { start_line: first as usize, end_line: total, truncated: false },
        },
    }
}

/// The lines of a file of `total` lines to show for a request from `start`
/// to `end`.
pub fn line_window(total: usize, start: Option<usize>, end: Option<usize>, page: Option<usize>) -> (r:
    LineWindow)
    ensures
        r == window_of(total, start, end, page),
{
    let first: usize = match start {
        Some(s) => if s < 1 {
            1
        } else {
            s
        },
        None => 1,
    };
    match end {
        Some(e) => LineWindow {
            start_line: first,
            end_line: if e <= total {
                e
            } else {
                total
            },
            truncated: false,
        },
        None => match page {
            Some(p) => {
                let last: usize = if p <= total && first - 1 <= total - p {
                    first - 1 + p
                } else {
                    total
                };
                LineWindow { start_line: first, end_line: last, truncated: last < total }
            },
            None => LineWindow { start_line: first, end_line: total, truncated: false },
        },
    }
}

/// Whether line `line` of a file lies in the window `w`.
pub fn in_window(w: &LineWindow, line: usize) -> (r: bool)
    ensures
        r == (w.start_line <= line <= w.end_line),
{
    w.start_line <= line && line <= w.end_line
}

/// How many lines of a file of `total` lines follow the window `w`.
pub fn lines_after(w: &LineWindow, total: usize) -> (r: usize)
    ensures
        r == if w.end_line < total {
            total - w.end_line
        } else {
            0
        },
{
    if w.end_line < total {
        total - w.end_line
    } else {
        0
    }
}

/// The part of a file of `total` lines that shows a declaration, as a
/// range of line indices counted from zero, the end excluded: from the
/// declaration's first line to its last, or for `context` lines where it
/// has no last line; never beyond the file, and never backwards.
pub open spec fn source_range_of(
    total: usize,
    start_line: usize,
    end_line: Option<usize>,
    context: usize,
) -> (int, int) {
    let start = if start_line == 0 {
        0
    } else {
        start_line - 1
    };
    let end = min_of(
        match end_line {
            Some(e) => e as int,
            None => start_line + context,
        },
        total as int,
    );
    (min_of(start, end), end)
}

/// The part of a file of `total` lines that shows a declaration.
pub fn source_range(total: usize, start_line: usize, end_line: Option<usize>, context: usize) -> (r:
    (usize, usize))
    ensures
        (r.0 as int, r.1 as int) == source_range_of(total, start_line, end_line, context),
        r.0 <= r.1 <= total,
{
    let start: usize = if start_line == 0 {
        0
    } else {
        start_line - 1
    };
    let wanted: usize = match end_line {
        Some(e) => e,
        None => if context <= usize::MAX - start_line {
            start_line + context
        } else {
            usize::MAX
        },
    };
    let end: usize = if wanted <= total {
        wanted
    } else {
        total
    };
    if start <= end {
        (start, end)
    } else {
        (end, end)
    }
}

/// Where the last hyphen of `s` stands, if `s` has one.
pub open spec fn last_hyphen(s: Seq<char>) -> Option<int>
    decreases s.len(),
{
    if s.len() == 0 {
        None
    } else if s.last() == '-' {
        Some(s.len() - 1)
    } else {
        last_hyphen(s.drop_last())
    }
}

/// Whether `s` ends in a hyphen and a version: whether a digit follows the
/// last hyphen.
pub open spec fn names_version(s: Seq<char>) -> bool {
    match last_hyphen(s) {
        Some(i) => i + 1 < s.len() && is_digit(s[i + 1]),
        None => false,
    }
}

/// The package name in a key: the key up to its last hyphen, where a
/// version follows that hyphen, and the whole key otherwise.
pub open spec fn crate_name_of(key: Seq<char>) -> Seq<char> {
    match last_hyphen(key) {
        Some(i) => if i + 1 < key.len() && is_digit(key[i + 1]) {
            key.take(i)
        } else {
            key
        },
        None => key,
    }
}

/// The last hyphen of a text lies within it, and no hyphen follows it.
pub proof fn lemma_last_hyphen(s: Seq<char>)
    ensures
        match last_hyphen(s) {
            Some(i) => 0 <= i < s.len() && s[i] == '-' && forall|k: int|
                i < k < s.len() ==> s[k] != '-',
            None => forall|k: int| 0 <= k < s.len() ==> s[k] != '-',
        },
    decreases s.len(),
{
    if s.len() > 0 && s.last() != '-' {
        lemma_last_hyphen(s.drop_last());
        match last_hyphen(s.drop_last()) {
            Some(i) => {
                assert forall|k: int| i < k < s.len() implies s[k] != '-' by {
                    if k < s.len() - 1 {
                        assert(s.drop_last()[k] != '-');
                    }
                }
            },
            None => {
                assert forall|k: int| 0 <= k < s.len() implies s[k] != '-' by {
                    if k < s.len() - 1 {
                        assert(s.drop_last()[k] != '-');
                    }
                }
            },
        }
    }
}

/// A hyphen after which no hyphen follows is the last hyphen.
pub proof fn lemma_last_hyphen_is(s: Seq<char>, i: int)
    requires
        0 <= i < s.len(),
        s[i] == '-',
        forall|k: int| i < k < s.len() ==> s[k] != '-',
    ensures
        last_hyphen(s) == Some(i),
{
    lemma_last_hyphen(s);
}

/// No hyphen at all means no last hyphen.
pub proof fn lemma_no_hyphen(s: Seq<char>)
    requires
        forall|k: int| 0 <= k < s.len() ==> s[k] != '-',
    ensures
        last_hyphen(s).is_none(),
{
    lemma_last_hyphen(s);
}

/// Where the last hyphen of `v` stands, if `v` has one.
fn find_last_hyphen(v: &Vec<char>) -> (r: Option<usize>)
    ensures
        match r {
            Some(i) => last_hyphen(v@) == Some(i as int) && i < v.len(),
            None => last_hyphen(v@).is_none(),
        },
{
    let mut i: usize = v.len();
    while i > 0
        invariant
            i <= v.len(),
            forall|k: int| i <= k < v.len() ==> v@[k] != '-',
        decreases i,
    {
        if v[i - 1] == '-' {
            proof {
                lemma_last_hyphen_is(v@, i - 1);
            }
            return Some(i - 1);
        }
        i -= 1;
    }
    proof {
        lemma_no_hyphen(v@);
    }
    None
}

/// Whether `name` ends in a hyphen and a version, as in `anyhow-1.0.100`.
pub fn user_specified_version(name: &str) -> (r: bool)
    ensures
        r == names_version(name@),
{
    let v = to_chars(name);
    match find_last_hyphen(&v) {
        Some(i) => i + 1 < v.len() && char_is_digit(v[i + 1]),
        None => false,
    }
}

/// The package name in the key `key`; names may hold hyphens themselves.
pub fn extract_crate_name(key: &str) -> (r: String)
    ensures
        r@ == crate_name_of(key@),
{
    let v = to_chars(key);
    match find_last_hyphen(&v) {
        Some(i) => {
            if i + 1 < v.len() && char_is_digit(v[i + 1]) {
                let r = from_chars(&v, 0, i);
                assert(v@.subrange(0, i as int) == v@.take(i as int));
                r
            } else {
                copy_str(key)
            }
        },
        None => copy_str(key),
    }
}

/// What to do for a request that names a package.
#[derive(Debug, PartialEq, Eq)]
pub enum LookupPlan {
    /// The request names a stored key with its version: use this key.
    Use(String),
    /// The request is a bare name with one stored version, `key`: ask for
    /// the latest version of `crate_name`, then decide with
    /// [`plan_upgrade`].
    CheckLatest { key: String, crate_name: String },
    /// Nothing is stored for the name: fetch it, then look again.
    Fetch(String),
}

/// What a [`LookupPlan`] holds, as plain values.
pub enum LookupPlanView {
    Use(Seq<char>),
    CheckLatest { key: Seq<char>, crate_name: Seq<char> },
    Fetch(Seq<char>),
}

impl View for LookupPlan {
    type V = LookupPlanView;

    open spec fn view(&self) -> LookupPlanView {
        match self {
            LookupPlan::Use(k) => LookupPlanView::Use(k@),
            LookupPlan::CheckLatest { key, crate_name } => LookupPlanView::CheckLatest {
                key: key@,
                crate_name: crate_name@,
            },
            LookupPlan::Fetch(n) => LookupPlanView::Fetch(n@),
        }
    }
}

/// The plan for a request, given what the name stands for in the catalog.
pub open spec fn lookup_plan(found: Option<Seq<char>>, name: Seq<char>) -> LookupPlanView {
    match found {
        Some(key) => if names_version(name) {
            LookupPlanView::Use(key)
        } else {
            LookupPlanView::CheckLatest { key: key, crate_name: crate_name_of(key) }
        },
        None => LookupPlanView::Fetch(name),
    }
}

/// The first step for a request that names a package: an ambiguous name is
/// an error; a name with a version is used as stored; a bare name is
/// checked against the latest version; an unknown name is fetched.
pub fn plan_lookup(db: &Database, name: &str) -> (r: Result<LookupPlan, AmbiguousReference>)
    ensures
        match resolve(db@, name@) {
            Ok(found) => r.is_ok() && r.unwrap()@ == lookup_plan(found, name@),
            Err(m) => r.is_err() && crate::text::texts(r.unwrap_err().candidates@) == m
                && r.unwrap_err().name@ == name@,
        },
{
    match db.find_crate_key(name) {
        Err(e) => Err(e),
        Ok(None) => Ok(LookupPlan::Fetch(copy_str(name))),
        Ok(Some(key)) => {
            if user_specified_version(name) {
                Ok(LookupPlan::Use(key))
            } else {
                let crate_name = extract_crate_name(key.as_str());
                Ok(LookupPlan::CheckLatest { key, crate_name })
            }
        },
    }
}

/// What to do once the latest version of a stored package is known.
#[derive(Debug, PartialEq, Eq)]
pub enum UpgradePlan {
    /// Use this key; nothing is to be fetched.
    Use(String),
    /// Fetch `crate_name` at `version`, then use `key`.
    FetchThenUse { crate_name: String, version: String, key: String },
}

/// What an [`UpgradePlan`] holds, as plain values.
pub enum UpgradePlanView {
    Use(Seq<char>),
    FetchThenUse { crate_name: Seq<char>, version: Seq<char>, key: Seq<char> },
}

impl View for UpgradePlan {
    type V = UpgradePlanView;

    open spec fn view(&self) -> UpgradePlanView {
        match self {
            UpgradePlan::Use(k) => UpgradePlanView::Use(k@),
            UpgradePlan::FetchThenUse { crate_name, version, key } => UpgradePlanView::FetchThenUse {
                crate_name: crate_name@,
                version: version@,
                key: key@,
            },
        }
    }
}

/// The plan once the latest version is known: without one, or where it is
/// the stored one, the stored key is used; a newer version is used where a
/// key stands for it in the catalog, and fetched first where none does.
pub open spec fn upgrade_plan(
    key: Seq<char>,
    crate_name: Seq<char>,
    latest: Option<Seq<char>>,
    latest_found: Option<Seq<char>>,
) -> UpgradePlanView {
    match latest {
        Some(version) => {
            let latest_key = package_key(crate_name, version);
            if latest_key == key {
                UpgradePlanView::Use(key)
            } else if latest_found.is_none() {
                UpgradePlanView::FetchThenUse {
                    crate_name: crate_name,
                    version: version,
                    key: latest_key,
                }
            } else {
                UpgradePlanView::Use(latest_key)
            }
        },
        None => UpgradePlanView::Use(key),
    }
}

/// The second step for a bare name whose stored version is `key`: `latest`
/// is the latest version of `crate_name`, or nothing where it could not be
/// found out.
pub fn plan_upgrade(db: &Database, key: &str, crate_name: &str, latest: Option<&str>) -> (r: Result<
    UpgradePlan,
    AmbiguousReference,
>)
    ensures
        match latest {
            Some(version) => if package_key(crate_name@, version@) == key@ {
                r.is_ok() && r.unwrap()@ == UpgradePlanView::Use(key@)
            } else {
                match resolve(db@, package_key(crate_name@, version@)) {
                    Ok(found) => r.is_ok() && r.unwrap()@ == upgrade_plan(
                        key@,
                        crate_name@,
                        Some(version@),
                        found,
                    ),
                    Err(m) => r.is_err() && crate::text::texts(r.unwrap_err().candidates@) == m,
                }
            },
            None => r.is_ok() && r.unwrap()@ == UpgradePlanView::Use(key@),
        },
{
    match latest {
        None => Ok(UpgradePlan::Use(copy_str(key))),
        Some(version) => {
            let latest_key = make_key(crate_name, version);
            if *latest_key.as_str() == *key {
                return Ok(UpgradePlan::Use(copy_str(key)));
            }
            match db.find_crate_key(latest_key.as_str()) {
                Err(e) => Err(e),
                Ok(None) => Ok(
                    UpgradePlan::FetchThenUse {
                        crate_name: copy_str(crate_name),
                        version: copy_str(version),
                        key: latest_key,
                    },
                ),
                Ok(Some(_)) => Ok(UpgradePlan::Use(latest_key)),
            }
        },
    }
}

/// `s` cut to fit a line of `max` bytes: a text of more than `max` bytes
/// keeps its first `max - 3` characters (none for a smaller `max`) and gets
/// three dots, unless it has no more characters than that.
pub open spec fn truncated(s: Seq<char>, max: usize) -> Seq<char> {
    let target = if max < 3 {
        0
    } else {
        max - 3
    };
    if vstd::utf8::encode_utf8(s).len() <= max {
        s
    } else if target < s.len() {
        s.take(target) + "..."@
    } else {
        s
    }
}

/// `s` cut to fit a line of `max` bytes.
pub fn truncate(s: &str, max: usize) -> (r: String)
    ensures
        r@ == truncated(s@, max),
{
    if s.as_bytes().len() <= max {
        return copy_str(s);
    }
    let target: usize = if max < 3 {
        0
    } else {
        max - 3
    };
    let v = to_chars(s);
    if target < v.len() {
        let head = from_chars(&v, 0, target);
        assert(v@.subrange(0, target as int) == v@.take(target as int));
        concat2(head.as_str(), "...")
    } else {
        copy_str(s)
    }
}

/// The file names under which a package's introduction is looked for, in
/// order of preference.
pub fn readme_names() -> (r: Vec<String>)
    ensures
        crate::text::texts(r@) == seq![
            "README.md"@,
            "README.markdown"@,
            "README.txt"@,
            "README"@,
            "readme.md"@,
            "readme.markdown"@,
            "readme.txt"@,
            "readme"@,
        ],
{
    let mut out: Vec<String> = Vec::new();
    out.push(String::from_str("README.md"));
    out.push(String::from_str("README.markdown"));
    out.push(String::from_str("README.txt"));
    out.push(String::from_str("README"));
    out.push(String::from_str("readme.md"));
    out.push(String::from_str("readme.markdown"));
    out.push(String::from_str("readme.txt"));
    out.push(String::from_str("readme"));
    assert(crate::text::texts(out@) =~= seq![
        "README.md"@,
        "README.markdown"@,
        "README.txt"@,
        "README"@,
        "readme.md"@,
        "readme.markdown"@,
        "readme.txt"@,
        "readme"@,
    ]);
    out
}

/// The first of the files under which an introduction is looked for that
/// exists: `exists[i]` tells whether the `i`-th name of [`readme_names`]
/// does.
pub fn pick_readme(exists: &Vec<bool>) -> (r: Option<usize>)
    ensures
        match r {
            Some(i) => i < exists.len() && exists@[i as int] && forall|k: int|
                0 <= k < i ==> !exists@[k],
            None => forall|k: int| 0 <= k < exists.len() ==> !exists@[k],
        },
{
    let mut i: usize = 0;
    while i < exists.len()
        invariant
            i <= exists.len(),
            forall|k: int| 0 <= k < i ==> !exists@[k],
        decreases exists.len() - i,
    {
        if exists[i] {
            return Some(i);
        }
        i += 1;
    }
    None
}

} // verus!
