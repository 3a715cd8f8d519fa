use crate_indexer::search::{
    build_regex, keep_impl, keep_named, matches_of_lines, search_file, search_functions, search_regex, select_rows,
    SearchMatch, SourceText,
};
use crate_indexer::storage::{FunctionInfo, ImplInfo};

fn function(name: &str, signature: &str) -> FunctionInfo {
    FunctionInfo {
        id: format!("id-{}", name),
        name: name.to_string(),
        file: "src/lib.rs".to_string(),
        line: 1,
        end_line: None,
        signature: signature.to_string(),
        docs: None,
    }
}

fn sample() -> Vec<FunctionInfo> {
    vec![
        function("parse", "fn parse(input : & str) -> Ast"),
        function("render", "fn render(ast : & Ast) -> String"),
        function("main", "fn main()"),
    ]
}

fn lines(list: &[&str]) -> Vec<String> {
    list.iter().map(|s| s.to_string()).collect()
}

fn found(file: &str, line: usize, content: &str) -> SearchMatch {
    SearchMatch { file: file.to_string(), line, content: content.to_string() }
}

#[test]
fn pattern_is_kept_with_its_matcher() {
    let matcher = build_regex(r"^fn\s+\w+").unwrap();
    assert_eq!(matcher.source(), r"^fn\s+\w+");
    assert!(matcher.is_match("fn main()"));
    assert!(!matcher.is_match("pub fn main()"));
    assert!(!matcher.is_match(r"^fn\s+\w+"));
}

#[test]
fn invalid_or_oversized_pattern_is_refused() {
    let error = build_regex("(unclosed").err().unwrap();
    assert_eq!(error.pattern, "(unclosed");
    assert!(!error.reason.is_empty());
    let error = build_regex(r"\w{5000}").err().unwrap();
    assert_eq!(error.pattern, r"\w{5000}");
}

#[test]
fn functions_are_matched_by_name_or_signature() {
    let functions = sample();
    let by_name: Vec<String> =
        search_functions(&functions, Some("^ren")).unwrap().iter().map(|f| f.name.clone()).collect();
    assert_eq!(by_name, vec!["render"]);
    let by_signature: Vec<String> =
        search_functions(&functions, Some("Ast")).unwrap().iter().map(|f| f.name.clone()).collect();
    assert_eq!(by_signature, vec!["parse", "render"]);
    assert!(search_functions(&functions, Some("nothing")).unwrap().is_empty());
}

#[test]
fn without_a_pattern_every_function_is_kept() {
    let functions = sample();
    assert_eq!(search_functions(&functions, None).unwrap(), functions);
    assert!(search_functions(&[], None).unwrap().is_empty());
}

#[test]
fn search_with_a_broken_pattern_fails() {
    let error = search_functions(&sample(), Some("[")).unwrap_err();
    assert_eq!(error.pattern, "[");
    assert!(search_regex(&vec![], "[").is_err());
}

#[test]
fn rows_are_selected_by_their_flags() {
    let functions = sample();
    let kept = select_rows(&functions, &vec![true, false, true]);
    assert_eq!(kept, vec![functions[0].clone(), functions[2].clone()]);
    assert_eq!(select_rows(&functions, &vec![false, true]), vec![functions[1].clone()]);
    assert_eq!(select_rows(&functions, &vec![true, true, true, true]), functions);
}

#[test]
fn matching_lines_are_numbered_from_one_and_trimmed() {
    let text = lines(&["use std::fmt;", "", "    fn helper() {}  ", "\tfn other() {}", "// fn in a comment"]);
    let matcher = build_regex(r"fn \w+\(").unwrap();
    assert_eq!(
        search_file(&text, "src/util.rs", &matcher),
        vec![found("src/util.rs", 3, "fn helper() {}"), found("src/util.rs", 4, "fn other() {}")]
    );
}

#[test]
fn flagged_lines_become_matches() {
    let text = lines(&["  a  ", "b", "c"]);
    assert_eq!(
        matches_of_lines(&text, &vec![true, false, true, true], "f.rs"),
        vec![found("f.rs", 1, "a"), found("f.rs", 3, "c")]
    );
    assert!(matches_of_lines(&text, &vec![], "f.rs").is_empty());
}

#[test]
fn files_are_searched_one_after_the_other() {
    let files = vec![
        SourceText { relative_path: "src/a.rs".to_string(), lines: lines(&["let x = 1;", "let y = 22;"]) },
        SourceText { relative_path: "src/empty.rs".to_string(), lines: vec![] },
        SourceText { relative_path: "src/b.rs".to_string(), lines: lines(&["  let z = 333;"]) },
    ];
    assert_eq!(
        search_regex(&files, r"\d{2,}").unwrap(),
        vec![found("src/a.rs", 2, "let y = 22;"), found("src/b.rs", 1, "let z = 333;")]
    );
}

#[test]
fn listings_keep_what_the_pattern_matches() {
    let matcher = build_regex("^Dis").unwrap();
    assert!(keep_named(Some(&matcher), "Display"));
    assert!(!keep_named(Some(&matcher), "Debug"));
    assert!(keep_named(None, "Debug"));
    let implementation = |self_type: &str, trait_name: Option<&str>| ImplInfo {
        id: "00000001".to_string(),
        file: "src/lib.rs".to_string(),
        line: 1,
        end_line: Some(2),
        self_type: self_type.to_string(),
        trait_name: trait_name.map(|t| t.to_string()),
    };
    assert!(keep_impl(Some(&matcher), &implementation("Point", Some("Display"))));
    assert!(keep_impl(Some(&matcher), &implementation("Disk", None)));
    assert!(!keep_impl(Some(&matcher), &implementation("Point", Some("Debug"))));
    assert!(!keep_impl(Some(&matcher), &implementation("Point", None)));
    assert!(keep_impl(None, &implementation("Point", None)));
}

#[test]
fn search_succeeds_exactly_where_the_pattern_compiles() {
    for pattern in ["fn", r"^\w+$", "", "a|b", "(", "[", r"\w{5000}", "*"] {
        let compiles = build_regex(pattern).is_ok();
        assert_eq!(search_functions(&sample(), Some(pattern)).is_ok(), compiles, "{}", pattern);
        assert_eq!(search_regex(&vec![], pattern).is_ok(), compiles, "{}", pattern);
    }
    assert!(build_regex("a|b").is_ok());
    assert!(build_regex("(").is_err());
}
