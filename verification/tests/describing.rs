use crate_indexer::database::Database;
use crate_indexer::describe::{
    format_constant_for_embedding, format_enum_for_embedding, format_function_for_embedding,
    format_macro_for_embedding, format_struct_for_embedding, format_trait_for_embedding,
    format_type_alias_for_embedding, items_to_embed, Described,
};
use crate_indexer::storage::{
    ConstantInfo, CrateItems, EnumInfo, FieldInfo, FunctionInfo, ImplInfo, MacroInfo, StructInfo,
    TraitInfo, TypeAliasInfo, VariantInfo,
};

fn text(s: &str) -> String {
    s.to_string()
}

fn function(docs: Option<&str>) -> FunctionInfo {
    FunctionInfo {
        id: text("00000001"),
        name: text("run"),
        file: text("src/lib.rs"),
        line: 1,
        end_line: Some(2),
        signature: text("fn run()"),
        docs: docs.map(text),
    }
}

fn structure(fields: &[&str], docs: Option<&str>) -> StructInfo {
    StructInfo {
        id: text("00000002"),
        name: text("Point"),
        file: text("src/lib.rs"),
        line: 3,
        end_line: Some(6),
        visibility: text("pub"),
        fields: fields
            .iter()
            .map(|f| FieldInfo { name: text(f), type_str: text("f64"), visibility: text("pub"), docs: None })
            .collect(),
        docs: docs.map(text),
    }
}

fn enumeration(variants: &[&str], docs: Option<&str>) -> EnumInfo {
    EnumInfo {
        id: text("00000003"),
        name: text("Shape"),
        file: text("src/lib.rs"),
        line: 7,
        end_line: Some(9),
        visibility: text("pub"),
        variants: variants
            .iter()
            .map(|v| VariantInfo { name: text(v), kind: text("unit"), fields: None, docs: None })
            .collect(),
        docs: docs.map(text),
    }
}

fn a_trait() -> TraitInfo {
    TraitInfo {
        id: text("00000004"),
        name: text("Draw"),
        file: text("src/lib.rs"),
        line: 10,
        end_line: Some(12),
        visibility: text("pub"),
        docs: Some(text("Draws.")),
    }
}

fn a_macro() -> MacroInfo {
    MacroInfo {
        id: text("00000005"),
        name: text("point"),
        file: text("src/lib.rs"),
        line: 13,
        end_line: None,
        kind: text("declarative"),
        docs: None,
    }
}

fn an_alias() -> TypeAliasInfo {
    TypeAliasInfo {
        id: text("00000006"),
        name: text("Points"),
        file: text("src/lib.rs"),
        line: 14,
        type_str: text("Vec < Point >"),
        visibility: text("pub"),
        docs: None,
    }
}

fn a_constant() -> ConstantInfo {
    ConstantInfo {
        id: text("00000007"),
        name: text("ORIGIN"),
        file: text("src/lib.rs"),
        line: 15,
        kind: text("static"),
        type_str: text("Point"),
        visibility: text("pub"),
        docs: Some(text("The origin.")),
    }
}

#[test]
fn function_is_described_by_signature_and_documentation() {
    assert_eq!(format_function_for_embedding(&function(None)), "fn run()");
    assert_eq!(format_function_for_embedding(&function(Some("Runs it."))), "fn run(). Runs it.");
}

#[test]
fn struct_and_enum_list_their_members() {
    assert_eq!(format_struct_for_embedding(&structure(&[], None)), "struct Point");
    assert_eq!(
        format_struct_for_embedding(&structure(&["x", "y"], Some("A point."))),
        "struct Point with fields: x, y. A point."
    );
    assert_eq!(format_enum_for_embedding(&enumeration(&[], Some("Empty."))), "enum Shape. Empty.");
    assert_eq!(
        format_enum_for_embedding(&enumeration(&["Circle", "Square"], None)),
        "enum Shape with variants: Circle, Square"
    );
}

#[test]
fn other_kinds_are_described_by_name_and_type() {
    assert_eq!(format_trait_for_embedding(&a_trait()), "trait Draw. Draws.");
    assert_eq!(format_macro_for_embedding(&a_macro()), "macro point!");
    assert_eq!(format_type_alias_for_embedding(&an_alias()), "type Points = Vec < Point >");
    assert_eq!(format_constant_for_embedding(&a_constant()), "static ORIGIN: Point. The origin.");
}

#[test]
fn package_is_described_kind_by_kind_without_implementations() {
    let mut items = CrateItems::new();
    items.impls.push(ImplInfo {
        id: text("00000008"),
        file: text("src/lib.rs"),
        line: 20,
        end_line: Some(22),
        self_type: text("Point"),
        trait_name: None,
    });
    items.constants.push(a_constant());
    items.type_aliases.push(an_alias());
    items.macros.push(a_macro());
    items.traits.push(a_trait());
    items.enums.push(enumeration(&["Circle"], None));
    items.structs.push(structure(&["x"], None));
    items.functions.push(function(None));
    let mut db = Database::new();
    db.add_crate("geo-0.3.0", "/geo", &items, &[]).unwrap();
    let described = |id: &str, kind: &str, words: &str| Described { id: text(id), item_type: text(kind), text: text(words) };
    assert_eq!(
        items_to_embed(&db, "geo-0.3.0"),
        vec![
            described("00000001", "function", "fn run()"),
            described("00000002", "struct", "struct Point with fields: x"),
            described("00000003", "enum", "enum Shape with variants: Circle"),
            described("00000004", "trait", "trait Draw. Draws."),
            described("00000005", "macro", "macro point!"),
            described("00000006", "type_alias", "type Points = Vec < Point >"),
            described("00000007", "constant", "static ORIGIN: Point. The origin."),
        ]
    );
    assert!(items_to_embed(&db, "unknown-1.0.0").is_empty());
}
