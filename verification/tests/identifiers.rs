use crate_indexer::ident::generate_id;
use crate_indexer::indexer::ItemVisitor;

#[test]
fn identifier_is_eight_lowercase_hex_digits() {
    let id = generate_id("foo-1.0.0", "src/lib.rs", "add", 3, "fn");
    assert_eq!(id.len(), 8);
    assert!(id.chars().all(|c| c.is_ascii_digit() || ('a'..='f').contains(&c)));
}

#[test]
fn identifier_is_the_upper_half_of_the_hash() {
    assert_eq!(generate_id("foo-1.0.0", "src/lib.rs", "add", 3, "fn"), "9f741319");
    assert_eq!(generate_id("foo-1.0.0", "src/lib.rs", "add", 4, "fn"), "35313206");
    assert_eq!(generate_id("foo-1.0.0", "src/lib.rs", "Point", 1, "struct"), "5ecf1e87");
    assert_eq!(generate_id("a", "b", "c", 0, "d"), "7047ae36");
}

#[test]
fn equal_inputs_give_equal_identifiers() {
    let first = generate_id("serde-1.0.0", "src/de/mod.rs", "Deserialize", 120, "trait");
    let second = generate_id("serde-1.0.0", "src/de/mod.rs", "Deserialize", 120, "trait");
    assert_eq!(first, second);
}

#[test]
fn each_input_takes_part_in_the_identifier() {
    let base = generate_id("foo-1.0.0", "src/lib.rs", "add", 3, "fn");
    assert_ne!(base, generate_id("foo-1.0.1", "src/lib.rs", "add", 3, "fn"));
    assert_ne!(base, generate_id("foo-1.0.0", "src/main.rs", "add", 3, "fn"));
    assert_ne!(base, generate_id("foo-1.0.0", "src/lib.rs", "sub", 3, "fn"));
    assert_ne!(base, generate_id("foo-1.0.0", "src/lib.rs", "add", 4, "fn"));
    assert_ne!(base, generate_id("foo-1.0.0", "src/lib.rs", "add", 3, "struct"));
}

#[test]
fn texts_are_hashed_apart() {
    // The same characters split differently between package and file.
    assert_ne!(generate_id("ab", "c", "n", 1, "fn"), generate_id("a", "bc", "n", 1, "fn"));
}

#[test]
fn visitor_identifies_within_its_file() {
    let visitor = ItemVisitor::new("src/lib.rs", "foo-1.0.0");
    assert_eq!(visitor.generate_id("add", 3, "fn"), "9f741319");
    assert_eq!(
        visitor.generate_id("Vec < T >_Default", 10, "impl"),
        generate_id("foo-1.0.0", "src/lib.rs", "Vec < T >_Default", 10, "impl")
    );
    assert_eq!(visitor.generate_id("Vec < T >_Default", 10, "impl"), "126dfd6a");
}
