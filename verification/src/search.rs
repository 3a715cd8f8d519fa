//! Searching a package with a regular expression: its function records, and
//! the lines of its source files.

use crate::storage::{
    row_views, FunctionInfo, FunctionInfoView, ImplInfo, ImplInfoView, Record,
};
use crate::text::{copy_str, texts, trim, trim_str};
use vstd::prelude::*;

verus! {

/// The largest compiled size that a pattern may have, in bytes.
pub const SIZE_LIMIT: usize = 1048576;

/// The largest cache that a search may use, in bytes.
pub const DFA_SIZE_LIMIT: usize = 1048576;

/// `regex::Regex`, a compiled regular expression; nothing is known of what
/// is inside.
#[verifier::external_type_specification]
#[verifier::external_body]
pub struct ExRegex(regex::Regex);

/// `regex::Error`, the reason for which a pattern did not compile; nothing
/// is known of what is inside.
#[verifier::external_type_specification]
#[verifier::external_body]
pub struct ExRegexError(regex::Error);

/// Whether the regular expression `pattern` matches somewhere in `text`.
pub uninterp spec fn regex_matches(pattern: Seq<char>, text: Seq<char>) -> bool;

/// Whether `pattern` is a regular expression whose compiled form stays
/// within the two size limits.
pub uninterp spec fn regex_compiles(pattern: Seq<char>, size_limit: usize, dfa_size_limit: usize) -> bool;

/// Whether `pattern` can be searched with: whether it compiles within the
/// limits of this library.
pub open spec fn is_pattern(pattern: Seq<char>) -> bool {
    regex_compiles(pattern, SIZE_LIMIT, DFA_SIZE_LIMIT)
}

/// A compiled regular expression together with the pattern it was
/// compiled from. Only [`build_regex`] makes one, so the two always belong
/// together.
pub struct Matcher {
    pattern: String,
    regex: regex::Regex,
}

impl Matcher {
    /// The pattern that this matcher was compiled from.
    pub closed spec fn pattern(&self) -> Seq<char> {
        self.pattern@
    }

    /// The pattern that this matcher was compiled from.
    pub fn source(&self) -> (r: &str)
        ensures
            r@ == self.pattern(),
    {
        self.pattern.as_str()
    }

    /// Whether the pattern matches somewhere in `text`.
    pub fn is_match(&self, text: &str) -> (r: bool)
        ensures
            r == regex_matches(self.pattern(), text@),
    {
        matcher_is_match(self, text)
    }
}

/// `regex::RegexBuilder::build`, for `pattern` under the two size limits:
/// the compiled expression, kept together with its pattern, or the error
/// of a pattern that is invalid or compiles to more than the limits allow.
/// Whether it succeeds depends on the pattern and the limits alone.
#[verifier::external_body]
fn compile(pattern: &str, size_limit: usize, dfa_size_limit: usize) -> (r: Result<
    Matcher,
    regex::Error,
>)
    ensures
        r.is_ok() <==> regex_compiles(pattern@, size_limit, dfa_size_limit),
        r matches Ok(m) ==> m.pattern() == pattern@,
{
    regex::RegexBuilder::new(pattern).size_limit(size_limit).dfa_size_limit(
        dfa_size_limit,
    ).build().map(|regex| Matcher { pattern: pattern.to_string(), regex })
}

/// `regex::Regex::is_match`: whether the expression matches somewhere in
/// `text`, which depends on the pattern and the text alone.
#[verifier::external_body]
fn matcher_is_match(m: &Matcher, text: &str) -> (r: bool)
    ensures
        r == regex_matches(m.pattern(), text@),
{
    m.regex.is_match(text)
}

/// The message of a `regex::Error`, as its `Display` words it.
#[verifier::external_body]
fn error_message(e: &regex::Error) -> (r: String) {
    e.to_string()
}

/// A pattern that is no regular expression, or one too large to be used.
#[derive(Debug, PartialEq, Eq)]
pub struct InvalidPattern {
    pub pattern: String,
    pub reason: String,
}

/// Compiles `pattern`, refusing expressions whose compiled form would be
/// larger than [`SIZE_LIMIT`].
pub fn build_regex(pattern: &str) -> (r: Result<Matcher, InvalidPattern>)
    ensures
        r.is_ok() <==> is_pattern(pattern@),
        match r {
            Ok(m) => m.pattern() == pattern@,
            Err(e) => e.pattern@ == pattern@,
        },
{
    match compile(pattern, SIZE_LIMIT, DFA_SIZE_LIMIT) {
        Ok(m) => Ok(m),
        Err(e) => Err(InvalidPattern { pattern: copy_str(pattern), reason: error_message(&e) }),
    }
}

/// The rows of `rows` whose flag in `keep` is set, in order; a row without
/// a flag is left out.
pub open spec fn selected<V>(rows: Seq<V>, keep: Seq<bool>) -> Seq<V>
    decreases rows.len(),
{
    if rows.len() == 0 {
        Seq::empty()
    } else {
        let rest = selected(rows.drop_last(), keep);
        if rows.len() <= keep.len() && keep[rows.len() - 1] {
            rest.push(rows.last())
        } else {
            rest
        }
    }
}

/// Copies of the rows of `rows` whose flag in `keep` is set.
pub fn select_rows<T: Record>(rows: &[T], keep: &Vec<bool>) -> (r: Vec<T>)
    ensures
        row_views(r@) == selected(row_views(rows@), keep@),
{
    let mut out: Vec<T> = Vec::new();
    let mut i: usize = 0;
    assert(row_views(out@) =~= selected(row_views(rows@).take(0), keep@));
    while i < rows.len()
        invariant
            i <= rows.len(),
            row_views(out@) == selected(row_views(rows@).take(i as int), keep@),
        decreases rows.len() - i,
    {
        let ghost all = row_views(rows@);
        assert(all.take(i + 1).drop_last() == all.take(i as int));
        assert(all.take(i + 1).last() == rows@[i as int]@);
        if i < keep.len() && keep[i] {
            let ghost before = out@;
            out.push(rows[i].duplicate());
            assert(row_views(out@) =~= row_views(before).push(rows@[i as int]@));
        }
        i += 1;
    }
    assert(row_views(rows@).take(rows.len() as int) == row_views(rows@));
    out
}

/// Whether `pattern` matches the name or the signature of `f`.
pub open spec fn function_matches(pattern: Seq<char>, f: FunctionInfoView) -> bool {
    regex_matches(pattern, f.name) || regex_matches(pattern, f.signature)
}

/// For each function, whether `pattern` matches it.
pub open spec fn function_flags(pattern: Seq<char>, functions: Seq<FunctionInfoView>) -> Seq<bool> {
    functions.map_values(|f: FunctionInfoView| function_matches(pattern, f))
}

/// The functions whose name or signature the pattern matches, in order;
/// all of them without a pattern. A pattern that does not compile is an
/// error.
pub fn search_functions(functions: &[FunctionInfo], pattern: Option<&str>) -> (r: Result<
    Vec<FunctionInfo>,
    InvalidPattern,
>)
    ensures
        r.is_ok() <==> (pattern matches Some(p) ==> is_pattern(p@)),
        match pattern {
            None => r.is_ok() && row_views(r.unwrap()@) == row_views(functions@),
            Some(p) => match r {
                Ok(v) => row_views(v@) == selected(
                    row_views(functions@),
                    function_flags(p@, row_views(functions@)),
                ),
                Err(e) => e.pattern@ == p@,
            },
        },
{
    let mut keep: Vec<bool> = Vec::new();
    match pattern {
        None => {
            let mut i: usize = 0;
            while i < functions.len()
                invariant
                    i <= functions.len(),
                    keep.len() == i,
                    forall|k: int| 0 <= k < i ==> keep@[k],
                decreases functions.len() - i,
            {
                keep.push(true);
                i += 1;
            }
            let out = select_rows(functions, &keep);
            proof {
                lemma_select_all(row_views(functions@), keep@);
            }
            Ok(out)
        },
        Some(p) => {
            let matcher = match build_regex(p) {
                Ok(m) => m,
                Err(e) => {
                    return Err(e);
                },
            };
            let mut i: usize = 0;
            while i < functions.len()
                invariant
                    i <= functions.len(),
                    matcher.pattern() == p@,
                    keep@ == function_flags(p@, row_views(functions@)).take(i as int),
                decreases functions.len() - i,
            {
                let f = &functions[i];
                let hit = matcher.is_match(f.name.as_str()) || matcher.is_match(f.signature.as_str());
                assert(row_views(functions@)[i as int] == f@);
                let ghost before = keep@;
                keep.push(hit);
                assert(keep@ =~= function_flags(p@, row_views(functions@)).take(i + 1));
                i += 1;
            }
            assert(function_flags(p@, row_views(functions@)).take(functions.len() as int)
                == function_flags(p@, row_views(functions@)));
            Ok(select_rows(functions, &keep))
        },
    }
}

/// Selecting with every flag set keeps every row.
pub proof fn lemma_select_all<V>(rows: Seq<V>, keep: Seq<bool>)
    requires
        keep.len() >= rows.len(),
        forall|k: int| 0 <= k < rows.len() ==> keep[k],
    ensures
        selected(rows, keep) == rows,
    decreases rows.len(),
{
    if rows.len() > 0 {
        lemma_select_all(rows.drop_last(), keep);
        assert(rows.drop_last().push(rows.last()) =~= rows);
    } else {
        assert(selected(rows, keep) =~= rows);
    }
}

/// Whether a declaration named `name` is listed: without a pattern every
/// declaration is, with one those whose name it matches.
pub open spec fn name_is_kept(pattern: Option<Seq<char>>, name: Seq<char>) -> bool {
    match pattern {
        Some(p) => regex_matches(p, name),
        None => true,
    }
}

/// Whether an implementation is listed: without a pattern every one is,
/// with one those whose self type or trait it matches.
pub open spec fn impl_is_kept(pattern: Option<Seq<char>>, i: ImplInfoView) -> bool {
    match pattern {
        Some(p) => regex_matches(p, i.self_type) || match i.trait_name {
            Some(t) => regex_matches(p, t),
            None => false,
        },
        None => true,
    }
}

/// The pattern of an optional matcher.
pub open spec fn pattern_of(matcher: Option<&Matcher>) -> Option<Seq<char>> {
    match matcher {
        Some(m) => Some(m.pattern()),
        None => None,
    }
}

/// Whether a declaration named `name` is listed under `matcher`.
pub fn keep_named(matcher: Option<&Matcher>, name: &str) -> (r: bool)
    ensures
        r == name_is_kept(pattern_of(matcher), name@),
{
    match matcher {
        Some(m) => m.is_match(name),
        None => true,
    }
}

/// Whether the implementation `i` is listed under `matcher`.
pub fn keep_impl(matcher: Option<&Matcher>, i: &ImplInfo) -> (r: bool)
    ensures
        r == impl_is_kept(pattern_of(matcher), i@),
{
    match matcher {
        Some(m) => m.is_match(i.self_type.as_str()) || match &i.trait_name {
            Some(t) => m.is_match(t.as_str()),
            None => false,
        },
        None => true,
    }
}

/// A line of a source file that a pattern matches.
#[derive(Debug, PartialEq, Eq)]
pub struct SearchMatch {
    /// The file, relative to the package root.
    pub file: String,
    /// The number of the line, counted from one.
    pub line: usize,
    /// The line without the white space around it.
    pub content: String,
}

/// What a [`SearchMatch`] holds, as plain values.
pub struct SearchMatchView {
    pub file: Seq<char>,
    pub line: usize,
    pub content: Seq<char>,
}

impl View for SearchMatch {
    type V = SearchMatchView;

    open spec fn view(&self) -> SearchMatchView {
        SearchMatchView { file: self.file@, line: self.line, content: self.content@ }
    }
}

/// The matches among the first `n` lines of a file: one for each line
/// whose flag in `hits` is set, with the line's number and trimmed text.
pub open spec fn flagged_lines(
    lines: Seq<Seq<char>>,
    hits: Seq<bool>,
    file: Seq<char>,
    n: int,
) -> Seq<SearchMatchView>
    decreases n,
{
    if n <= 0 {
        Seq::empty()
    } else {
        let rest = flagged_lines(lines, hits, file, n - 1);
        if n - 1 < hits.len() && hits[n - 1] {
            rest.push(SearchMatchView { file: file, line: n as usize, content: trim(lines[n - 1]) })
        } else {
            rest
        }
    }
}

/// For each line, whether `pattern` matches it.
pub open spec fn line_flags(pattern: Seq<char>, lines: Seq<Seq<char>>) -> Seq<bool> {
    lines.map_values(|l: Seq<char>| regex_matches(pattern, l))
}

/// The matches of a file, given for each line whether the pattern matches
/// it.
pub fn matches_of_lines(lines: &Vec<String>, hits: &Vec<bool>, relative_path: &str) -> (r: Vec<
    SearchMatch,
>)
    ensures
        row_views(r@) == flagged_lines(texts(lines@), hits@, relative_path@, lines@.len() as int),
{
    let mut out: Vec<SearchMatch> = Vec::new();
    let mut i: usize = 0;
    assert(row_views(out@) =~= flagged_lines(texts(lines@), hits@, relative_path@, 0));
    while i < lines.len()
        invariant
            i <= lines.len(),
            row_views(out@) == flagged_lines(texts(lines@), hits@, relative_path@, i as int),
        decreases lines.len() - i,
    {
        if i < hits.len() && hits[i] {
            let ghost before = out@;
            let m = SearchMatch {
                file: copy_str(relative_path),
                line: i + 1,
                content: trim_str(lines[i].as_str()),
            };
            out.push(m);
            assert(row_views(out@) =~= row_views(before).push(m@));
        }
        i += 1;
    }
    out
}

/// The lines of one file that the pattern matches.
pub fn search_file(lines: &Vec<String>, relative_path: &str, matcher: &Matcher) -> (r: Vec<
    SearchMatch,
>)
    ensures
        row_views(r@) == flagged_lines(
            texts(lines@),
            line_flags(matcher.pattern(), texts(lines@)),
            relative_path@,
            lines@.len() as int,
        ),
{
    let mut hits: Vec<bool> = Vec::new();
    let mut i: usize = 0;
    while i < lines.len()
        invariant
            i <= lines.len(),
            hits@ == line_flags(matcher.pattern(), texts(lines@)).take(i as int),
        decreases lines.len() - i,
    {
        let hit = matcher.is_match(lines[i].as_str());
        hits.push(hit);
        assert(hits@ =~= line_flags(matcher.pattern(), texts(lines@)).take(i + 1));
        i += 1;
    }
    assert(line_flags(matcher.pattern(), texts(lines@)).take(lines.len() as int) == line_flags(
        matcher.pattern(),
        texts(lines@),
    ));
    matches_of_lines(lines, &hits, relative_path)
}

/// The text of one source file: its path below the package root, and its
/// lines.
#[derive(Debug, Clone, PartialEq, Eq)]
pub struct SourceText {
    pub relative_path: String,
    pub lines: Vec<String>,
}

/// The matches of the first `n` files, one file after the other.
pub open spec fn matches_in_files(files: Seq<SourceText>, pattern: Seq<char>, n: int) -> Seq<
    SearchMatchView,
>
    decreases n,
{
    if n <= 0 {
        Seq::empty()
    } else {
        matches_in_files(files, pattern, n - 1) + flagged_lines(
            texts(files[n - 1].lines@),
            line_flags(pattern, texts(files[n - 1].lines@)),
            files[n - 1].relative_path@,
            files[n - 1].lines@.len() as int,
        )
    }
}

/// The lines of the files of a package that the pattern matches, file by
/// file. A pattern that does not compile is an error.
pub fn search_regex(files: &Vec<SourceText>, pattern: &str) -> (r: Result<
    Vec<SearchMatch>,
    InvalidPattern,
>)
    ensures
        r.is_ok() <==> is_pattern(pattern@),
        match r {
            Ok(v) => row_views(v@) == matches_in_files(files@, pattern@, files@.len() as int),
            Err(e) => e.pattern@ == pattern@,
        },
{
    let matcher = match build_regex(pattern) {
        Ok(m) => m,
        Err(e) => {
            return Err(e);
        },
    };
    let mut out: Vec<SearchMatch> = Vec::new();
    let mut i: usize = 0;
    assert(row_views(out@) =~= matches_in_files(files@, pattern@, 0));
    while i < files.len()
        invariant
            i <= files.len(),
            matcher.pattern() == pattern@,
            row_views(out@) == matches_in_files(files@, pattern@, i as int),
        decreases files.len() - i,
    {
        let mut found = search_file(&files[i].lines, files[i].relative_path.as_str(), &matcher);
        let ghost before = out@;
        let ghost added = found@;
        out.append(&mut found);
        assert(row_views(out@) =~= row_views(before) + row_views(added));
        i += 1;
    }
    Ok(out)
}

} // verus!
