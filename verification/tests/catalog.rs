use crate_indexer::crawl::Limits;
use crate_indexer::database::{Database, DeclKind, Item, StorageError};
use crate_indexer::storage::{
    ConstantInfo, CrateItems, EnumInfo, FieldInfo, FunctionInfo, ImplInfo, MacroInfo, StructInfo,
    TraitInfo, TypeAliasInfo, VariantInfo,
};

fn function(id: &str, name: &str) -> FunctionInfo {
    FunctionInfo {
        id: id.to_string(),
        name: name.to_string(),
        file: "src/lib.rs".to_string(),
        line: 1,
        end_line: Some(3),
        signature: format!("fn {}()", name),
        docs: None,
    }
}

fn structure(id: &str, name: &str) -> StructInfo {
    StructInfo {
        id: id.to_string(),
        name: name.to_string(),
        file: "src/lib.rs".to_string(),
        line: 10,
        end_line: Some(13),
        visibility: "pub".to_string(),
        fields: vec![FieldInfo {
            name: "x".to_string(),
            type_str: "u32".to_string(),
            visibility: "pub".to_string(),
            docs: Some("The x.".to_string()),
        }],
        docs: None,
    }
}

fn functions(ids: &[&str]) -> CrateItems {
    let mut items = CrateItems::new();
    for id in ids {
        items.functions.push(function(id, &format!("f_{}", id)));
    }
    items
}

fn names(list: &[&str]) -> Vec<String> {
    list.iter().map(|s| s.to_string()).collect()
}

#[test]
fn new_catalog_is_empty() {
    let db = Database::new();
    assert_eq!(db.len(), 0);
    assert!(db.list_crate_keys().is_empty());
    assert_eq!(db.get_crate_path("foo-1.0.0"), None);
    assert!(db.get_functions("foo-1.0.0").is_empty());
    assert!(db.get_reexports("foo-1.0.0").is_empty());
    assert_eq!(db.find_crate_key("foo"), Ok(None));
}

#[test]
fn stored_package_is_found_under_its_key() {
    let mut db = Database::new();
    let items = functions(&["00000001", "00000002"]);
    assert_eq!(db.add_crate("foo-1.0.0", "/c/foo-1.0.0", &items, &names(&["bar"])), Ok(()));
    assert_eq!(db.len(), 1);
    assert!(db.contains_key("foo-1.0.0"));
    assert!(!db.contains_key("foo"));
    assert_eq!(db.get_crate_path("foo-1.0.0"), Some("/c/foo-1.0.0".to_string()));
    assert_eq!(db.get_reexports("foo-1.0.0"), names(&["bar"]));
    assert_eq!(db.get_functions("foo-1.0.0"), items.functions);
    assert_eq!(db.list_crate_keys(), names(&["foo-1.0.0"]));
}

#[test]
fn reindexing_after_shrinking_leaves_three_functions() {
    let mut db = Database::new();
    let five = functions(&["0000000a", "0000000b", "0000000c", "0000000d", "0000000e"]);
    let three = functions(&["0000000a", "0000000b", "0000000c"]);
    assert_eq!(db.add_crate("foo-1.0.0", "/c/foo-1.0.0", &five, &[]), Ok(()));
    assert_eq!(db.get_functions("foo-1.0.0").len(), 5);
    assert_eq!(db.add_crate("foo-1.0.0", "/c/foo-1.0.0", &three, &[]), Ok(()));
    assert_eq!(db.get_functions("foo-1.0.0").len(), 3);
    assert_eq!(db.get_functions("foo-1.0.0"), three.functions);
    assert_eq!(db.len(), 1);
    // Nothing of the first catalog is left behind.
    assert_eq!(db.get_function_by_id("0000000d"), None);
    assert_eq!(db.get_function_by_id("0000000e"), None);
}

#[test]
fn replacing_keeps_the_second_catalog_whatever_the_counts() {
    let mut db = Database::new();
    let mut first = functions(&["00000001"]);
    first.structs.push(structure("00000002", "Point"));
    let second = functions(&["00000003", "00000004"]);
    assert_eq!(db.add_crate("foo-1.0.0", "/old", &first, &names(&["a", "b"])), Ok(()));
    assert_eq!(db.add_crate("foo-1.0.0", "/new", &second, &names(&["c"])), Ok(()));
    assert_eq!(db.get_crate_path("foo-1.0.0"), Some("/new".to_string()));
    assert_eq!(db.get_functions("foo-1.0.0"), second.functions);
    assert!(db.get_structs("foo-1.0.0").is_empty());
    assert_eq!(db.get_struct_by_id("00000002"), None);
    assert_eq!(db.get_reexports("foo-1.0.0"), names(&["c"]));
}

#[test]
fn storing_the_same_catalog_twice_changes_nothing() {
    let mut db = Database::new();
    let items = functions(&["00000001", "00000002"]);
    assert_eq!(db.add_crate("other-0.1.0", "/o", &functions(&["000000ff"]), &[]), Ok(()));
    assert_eq!(db.add_crate("foo-1.0.0", "/f", &items, &names(&["x"])), Ok(()));
    let keys = db.list_crate_keys();
    let rows = db.get_functions("foo-1.0.0");
    assert_eq!(db.add_crate("foo-1.0.0", "/f", &items, &names(&["x"])), Ok(()));
    assert_eq!(db.list_crate_keys(), keys);
    assert_eq!(db.get_functions("foo-1.0.0"), rows);
    assert_eq!(db.get_functions("other-0.1.0").len(), 1);
}

#[test]
fn replaced_package_moves_to_the_end() {
    let mut db = Database::new();
    assert_eq!(db.add_crate("a-1.0.0", "/a", &functions(&["00000001"]), &[]), Ok(()));
    assert_eq!(db.add_crate("b-1.0.0", "/b", &functions(&["00000002"]), &[]), Ok(()));
    assert_eq!(db.add_crate("a-1.0.0", "/a", &functions(&["00000003"]), &[]), Ok(()));
    assert_eq!(db.list_crate_keys(), names(&["b-1.0.0", "a-1.0.0"]));
}

#[test]
fn identifier_of_another_package_is_refused_and_nothing_changes() {
    let mut db = Database::new();
    assert_eq!(db.add_crate("a-1.0.0", "/a", &functions(&["00000001"]), &[]), Ok(()));
    assert_eq!(db.add_crate("b-1.0.0", "/b", &functions(&["00000002"]), &[]), Ok(()));
    let clash = functions(&["00000009", "00000001"]);
    assert_eq!(
        db.add_crate("b-1.0.0", "/b2", &clash, &[]),
        Err(StorageError::DuplicateIdentifier(DeclKind::Function))
    );
    assert_eq!(db.list_crate_keys(), names(&["a-1.0.0", "b-1.0.0"]));
    assert_eq!(db.get_crate_path("b-1.0.0"), Some("/b".to_string()));
    assert_eq!(db.get_functions("b-1.0.0"), functions(&["00000002"]).functions);
    assert_eq!(db.get_function_by_id("00000009"), None);
}

#[test]
fn identifier_twice_in_one_catalog_is_refused() {
    let mut db = Database::new();
    let twice = functions(&["00000001", "00000001"]);
    assert_eq!(
        db.add_crate("a-1.0.0", "/a", &twice, &[]),
        Err(StorageError::DuplicateIdentifier(DeclKind::Function))
    );
    assert_eq!(db.len(), 0);
}

#[test]
fn first_table_with_a_clash_is_named() {
    let mut db = Database::new();
    let mut items = CrateItems::new();
    items.structs.push(structure("00000001", "A"));
    items.structs.push(structure("00000001", "B"));
    items.impls.push(implementation("00000002"));
    items.impls.push(implementation("00000002"));
    assert_eq!(
        db.add_crate("a-1.0.0", "/a", &items, &names(&["x", "x"])),
        Err(StorageError::DuplicateIdentifier(DeclKind::Struct))
    );
}

#[test]
fn repeated_reexport_is_refused() {
    let mut db = Database::new();
    assert_eq!(
        db.add_crate("a-1.0.0", "/a", &functions(&["00000001"]), &names(&["x", "y", "x"])),
        Err(StorageError::DuplicateReexport)
    );
    assert_eq!(db.len(), 0);
}

#[test]
fn same_identifier_in_two_tables_is_accepted() {
    let mut db = Database::new();
    let mut items = functions(&["00000001"]);
    items.structs.push(structure("00000001", "Point"));
    assert_eq!(db.add_crate("a-1.0.0", "/a", &items, &[]), Ok(()));
    // The function table is searched before the struct table.
    match db.find_item("00000001") {
        Some((key, Item::Function(f))) => {
            assert_eq!(key, "a-1.0.0");
            assert_eq!(f.name, "f_00000001");
        }
        other => panic!("not the function: {:?}", other),
    }
    assert_eq!(
        db.get_struct_by_id("00000001"),
        Some(("a-1.0.0".to_string(), structure("00000001", "Point")))
    );
}

fn implementation(id: &str) -> ImplInfo {
    ImplInfo {
        id: id.to_string(),
        file: "src/lib.rs".to_string(),
        line: 20,
        end_line: Some(30),
        self_type: "Point".to_string(),
        trait_name: Some("Default".to_string()),
    }
}

fn one_of_each() -> CrateItems {
    let mut items = CrateItems::new();
    items.functions.push(function("00000001", "run"));
    items.structs.push(structure("00000002", "Point"));
    items.enums.push(EnumInfo {
        id: "00000003".to_string(),
        name: "Shape".to_string(),
        file: "src/lib.rs".to_string(),
        line: 40,
        end_line: Some(44),
        visibility: "pub".to_string(),
        variants: vec![VariantInfo {
            name: "Circle".to_string(),
            kind: "tuple".to_string(),
            fields: Some("f64".to_string()),
            docs: None,
        }],
        docs: Some("A shape.".to_string()),
    });
    items.traits.push(TraitInfo {
        id: "00000004".to_string(),
        name: "Draw".to_string(),
        file: "src/lib.rs".to_string(),
        line: 50,
        end_line: Some(52),
        visibility: "pub".to_string(),
        docs: None,
    });
    items.macros.push(MacroInfo {
        id: "00000005".to_string(),
        name: "point".to_string(),
        file: "src/lib.rs".to_string(),
        line: 60,
        end_line: None,
        kind: "declarative".to_string(),
        docs: None,
    });
    items.type_aliases.push(TypeAliasInfo {
        id: "00000006".to_string(),
        name: "Points".to_string(),
        file: "src/lib.rs".to_string(),
        line: 70,
        type_str: "Vec < Point >".to_string(),
        visibility: "pub".to_string(),
        docs: None,
    });
    items.constants.push(ConstantInfo {
        id: "00000007".to_string(),
        name: "ORIGIN".to_string(),
        file: "src/lib.rs".to_string(),
        line: 80,
        kind: "const".to_string(),
        type_str: "Point".to_string(),
        visibility: "pub".to_string(),
        docs: None,
    });
    items.impls.push(implementation("00000008"));
    items
}

#[test]
fn every_kind_is_stored_and_found_by_identifier() {
    let mut db = Database::new();
    let items = one_of_each();
    assert_eq!(db.add_crate("geo-0.3.0", "/c/geo-0.3.0", &items, &[]), Ok(()));
    let key = "geo-0.3.0".to_string();
    assert_eq!(db.get_functions("geo-0.3.0"), items.functions);
    assert_eq!(db.get_structs("geo-0.3.0"), items.structs);
    assert_eq!(db.get_enums("geo-0.3.0"), items.enums);
    assert_eq!(db.get_traits("geo-0.3.0"), items.traits);
    assert_eq!(db.get_macros("geo-0.3.0"), items.macros);
    assert_eq!(db.get_type_aliases("geo-0.3.0"), items.type_aliases);
    assert_eq!(db.get_constants("geo-0.3.0"), items.constants);
    assert_eq!(db.get_impls("geo-0.3.0"), items.impls);
    assert_eq!(db.get_function_by_id("00000001"), Some((key.clone(), items.functions[0].clone())));
    assert_eq!(db.get_struct_by_id("00000002"), Some((key.clone(), items.structs[0].clone())));
    assert_eq!(db.get_enum_by_id("00000003"), Some((key.clone(), items.enums[0].clone())));
    assert_eq!(db.get_trait_by_id("00000004"), Some((key.clone(), items.traits[0].clone())));
    assert_eq!(db.get_macro_by_id("00000005"), Some((key.clone(), items.macros[0].clone())));
    assert_eq!(
        db.get_type_alias_by_id("00000006"),
        Some((key.clone(), items.type_aliases[0].clone()))
    );
    assert_eq!(db.get_constant_by_id("00000007"), Some((key.clone(), items.constants[0].clone())));
    assert_eq!(db.get_impl_by_id("00000008"), Some((key.clone(), items.impls[0].clone())));
    assert_eq!(db.get_function_by_id("00000002"), None);
}

#[test]
fn item_of_any_kind_is_found_with_its_kind() {
    let mut db = Database::new();
    assert_eq!(db.add_crate("geo-0.3.0", "/c/geo-0.3.0", &one_of_each(), &[]), Ok(()));
    let kinds: Vec<DeclKind> = (1..=8)
        .map(|n| db.find_item(&format!("0000000{}", n)).unwrap().1.kind())
        .collect();
    assert_eq!(
        kinds,
        vec![
            DeclKind::Function,
            DeclKind::Struct,
            DeclKind::Enum,
            DeclKind::Trait,
            DeclKind::Macro,
            DeclKind::TypeAlias,
            DeclKind::Constant,
            DeclKind::Impl,
        ]
    );
    assert_eq!(db.find_item("0000000f"), None);
}

#[test]
fn two_stored_versions_make_a_bare_name_ambiguous() {
    let mut db = Database::new();
    assert_eq!(db.add_crate("foo-1.0.0", "/1", &functions(&["00000001"]), &[]), Ok(()));
    assert_eq!(db.add_crate("foo-2.0.0", "/2", &functions(&["00000002"]), &[]), Ok(()));
    let error = db.find_crate_key("foo").unwrap_err();
    assert_eq!(error.name, "foo");
    assert_eq!(error.candidates, names(&["foo-1.0.0", "foo-2.0.0"]));
    assert_eq!(db.find_crate_key("foo-1.0.0"), Ok(Some("foo-1.0.0".to_string())));
    assert_eq!(db.find_crate_key("foo-2.0.0"), Ok(Some("foo-2.0.0".to_string())));
}

#[test]
fn bare_name_stands_for_its_one_stored_version() {
    let mut db = Database::new();
    assert_eq!(db.add_crate("foo-1.0.0", "/1", &functions(&["00000001"]), &[]), Ok(()));
    assert_eq!(db.add_crate("foo-bar-0.2.0", "/2", &functions(&["00000002"]), &[]), Ok(()));
    assert_eq!(db.find_crate_key("foo"), Ok(Some("foo-1.0.0".to_string())));
    assert_eq!(db.find_crate_key("foo-bar"), Ok(Some("foo-bar-0.2.0".to_string())));
    assert_eq!(db.find_crate_key("fo"), Ok(None));
    assert_eq!(db.find_crate_key("bar"), Ok(None));
    assert_eq!(db.find_crate_key("foo-1"), Ok(None));
}

fn diamond() -> Database {
    let mut db = Database::new();
    assert_eq!(db.add_crate("a-1.0.0", "/a", &functions(&["0000000a"]), &names(&["b", "c"])), Ok(()));
    assert_eq!(db.add_crate("b-1.0.0", "/b", &functions(&["0000000b"]), &names(&["d"])), Ok(()));
    assert_eq!(db.add_crate("c-1.0.0", "/c", &functions(&["0000000c"]), &names(&["d", "x"])), Ok(()));
    assert_eq!(db.add_crate("d-1.0.0", "/d", &functions(&["0000000d"]), &names(&["a"])), Ok(()));
    db
}

#[test]
fn reexports_are_followed_to_the_end() {
    let db = diamond();
    let closure = db.keys_with_reexports("a-1.0.0", Limits::none()).unwrap();
    assert!(closure.complete);
    assert_eq!(closure.keys[0], "a-1.0.0");
    assert_eq!(closure.depths[0], 0);
    let mut found: Vec<(String, usize)> =
        closure.keys.iter().cloned().zip(closure.depths.iter().copied()).collect();
    found.sort();
    let expected: Vec<(String, usize)> =
        names(&["a-1.0.0", "b-1.0.0", "c-1.0.0", "d-1.0.0"]).into_iter().zip([0, 1, 1, 2]).collect();
    assert_eq!(found, expected);
}

#[test]
fn walk_starts_from_an_unknown_key_with_that_key_alone() {
    let db = diamond();
    let closure = db.keys_with_reexports("zzz-1.0.0", Limits::none()).unwrap();
    assert!(closure.complete);
    assert_eq!(closure.keys, names(&["zzz-1.0.0"]));
    assert_eq!(closure.depths, vec![0]);
    // Limits change nothing where there is nothing to follow.
    let tight = Limits { max_depth: Some(0), max_packages: Some(0) };
    let closure = db.keys_with_reexports("zzz-1.0.0", tight).unwrap();
    assert!(closure.complete);
    assert_eq!(closure.keys, names(&["zzz-1.0.0"]));
}

#[test]
fn limits_cut_the_walk_short() {
    let db = diamond();
    let one_step = Limits { max_depth: Some(1), max_packages: None };
    let closure = db.keys_with_reexports("a-1.0.0", one_step).unwrap();
    assert!(!closure.complete);
    let mut sorted = closure.keys.clone();
    sorted.sort();
    assert_eq!(sorted, names(&["a-1.0.0", "b-1.0.0", "c-1.0.0"]));
    let two_keys = Limits { max_depth: None, max_packages: Some(2) };
    let closure = db.keys_with_reexports("a-1.0.0", two_keys).unwrap();
    assert!(!closure.complete);
    assert_eq!(closure.keys, names(&["a-1.0.0", "b-1.0.0"]));
    let closure = db.keys_with_reexports("a-1.0.0", Limits::bounded()).unwrap();
    assert!(closure.complete);
    assert_eq!(closure.keys.len(), 4);
    let no_step = Limits { max_depth: Some(0), max_packages: None };
    let closure = db.keys_with_reexports("a-1.0.0", no_step).unwrap();
    assert!(!closure.complete);
    assert_eq!(closure.keys, names(&["a-1.0.0"]));
}

#[test]
fn walk_is_complete_where_the_deepest_keys_lead_nowhere_new() {
    let db = diamond();
    let two_steps = Limits { max_depth: Some(2), max_packages: None };
    let closure = db.keys_with_reexports("a-1.0.0", two_steps).unwrap();
    // `d` lies two steps away and is not looked into, but all it re-exports is listed.
    assert!(closure.complete);
    assert_eq!(closure.keys.len(), 4);
    assert_eq!(closure.depths.iter().max(), Some(&2));
    let four_keys = Limits { max_depth: None, max_packages: Some(4) };
    let closure = db.keys_with_reexports("a-1.0.0", four_keys).unwrap();
    assert!(closure.complete);
    assert_eq!(closure.keys.len(), 4);
}

fn two_branches() -> Database {
    let mut db = Database::new();
    let mut add = |key: &str, id: &str, reexports: &[&str]| {
        assert_eq!(db.add_crate(key, "/p", &functions(&[id]), &names(reexports)), Ok(()));
    };
    add("r-1.0.0", "000000a0", &["p", "q"]);
    add("p-1.0.0", "000000a1", &["p2"]);
    add("p2-1.0.0", "000000a2", &[]);
    add("q-1.0.0", "000000a3", &["q2"]);
    add("q2-1.0.0", "000000a4", &["q3"]);
    add("q3-1.0.0", "000000a5", &[]);
    db
}

#[test]
fn depth_limit_on_one_branch_leaves_the_other_branch_whole() {
    let db = two_branches();
    let two_steps = Limits { max_depth: Some(2), max_packages: None };
    let closure = db.keys_with_reexports("r-1.0.0", two_steps).unwrap();
    assert!(!closure.complete);
    let mut found: Vec<(String, usize)> =
        closure.keys.iter().cloned().zip(closure.depths.iter().copied()).collect();
    found.sort();
    let expected: Vec<(String, usize)> = names(&["p-1.0.0", "p2-1.0.0", "q-1.0.0", "q2-1.0.0", "r-1.0.0"])
        .into_iter()
        .zip([1, 2, 1, 2, 0])
        .collect();
    assert_eq!(found, expected);
    let three_steps = Limits { max_depth: Some(3), max_packages: None };
    let closure = db.keys_with_reexports("r-1.0.0", three_steps).unwrap();
    assert!(closure.complete);
    assert_eq!(closure.keys.len(), 6);
}

#[test]
fn size_limit_returns_what_was_found_before_it_was_reached() {
    let db = two_branches();
    for limit in 0..=7usize {
        let closure =
            db.keys_with_reexports("r-1.0.0", Limits { max_depth: None, max_packages: Some(limit) }).unwrap();
        assert_eq!(closure.keys.len(), limit.clamp(1, 6), "limit {}", limit);
        assert_eq!(closure.complete, limit >= 6, "limit {}", limit);
        assert_eq!(closure.keys[0], "r-1.0.0");
    }
}

#[test]
fn ambiguous_name_beyond_the_depth_limit_raises_no_error() {
    let mut db = diamond();
    assert_eq!(db.add_crate("x-1.0.0", "/x1", &functions(&["000000e1"]), &[]), Ok(()));
    assert_eq!(db.add_crate("x-2.0.0", "/x2", &functions(&["000000e2"]), &[]), Ok(()));
    let one_step = Limits { max_depth: Some(1), max_packages: None };
    let closure = db.keys_with_reexports("a-1.0.0", one_step).unwrap();
    assert!(!closure.complete);
    assert_eq!(closure.keys.len(), 3);
}

#[test]
fn ambiguous_reexport_stops_the_walk() {
    let mut db = diamond();
    assert_eq!(db.add_crate("x-1.0.0", "/x1", &functions(&["000000e1"]), &[]), Ok(()));
    assert_eq!(db.add_crate("x-2.0.0", "/x2", &functions(&["000000e2"]), &[]), Ok(()));
    let error = db.keys_with_reexports("a-1.0.0", Limits::none()).unwrap_err();
    assert_eq!(error.name, "x");
    assert_eq!(error.candidates, names(&["x-1.0.0", "x-2.0.0"]));
}

#[test]
fn clash_in_any_table_is_refused_under_its_kind() {
    let kinds = [
        DeclKind::Function,
        DeclKind::Struct,
        DeclKind::Enum,
        DeclKind::Trait,
        DeclKind::Macro,
        DeclKind::TypeAlias,
        DeclKind::Constant,
        DeclKind::Impl,
    ];
    for kind in kinds {
        let mut db = Database::new();
        assert_eq!(db.add_crate("geo-0.3.0", "/geo", &one_of_each(), &[]), Ok(()));
        let mut items = CrateItems::new();
        let stored = one_of_each();
        match kind {
            DeclKind::Function => items.functions = stored.functions,
            DeclKind::Struct => items.structs = stored.structs,
            DeclKind::Enum => items.enums = stored.enums,
            DeclKind::Trait => items.traits = stored.traits,
            DeclKind::Macro => items.macros = stored.macros,
            DeclKind::TypeAlias => items.type_aliases = stored.type_aliases,
            DeclKind::Constant => items.constants = stored.constants,
            DeclKind::Impl => items.impls = stored.impls,
        }
        assert_eq!(
            db.add_crate("other-1.0.0", "/other", &items, &[]),
            Err(StorageError::DuplicateIdentifier(kind))
        );
        assert_eq!(db.len(), 1);
        // Under the key that owns the identifier the same rows are accepted.
        assert_eq!(db.add_crate("geo-0.3.0", "/geo", &items, &[]), Ok(()));
    }
}

#[test]
fn ambiguous_candidates_are_listed_in_dictionary_order() {
    let mut db = Database::new();
    for (n, key) in ["foo-2.0.0", "foo-10.0.0", "foo-1.0.0", "foo-1.0.0-beta", "food-1.0.0"].iter().enumerate() {
        assert_eq!(db.add_crate(key, "/p", &functions(&[&format!("0000001{}", n)]), &[]), Ok(()));
    }
    let error = db.find_crate_key("foo").unwrap_err();
    assert_eq!(error.candidates, names(&["foo-1.0.0", "foo-1.0.0-beta", "foo-10.0.0", "foo-2.0.0"]));
    assert_eq!(db.list_crate_keys()[0], "foo-2.0.0");
}
