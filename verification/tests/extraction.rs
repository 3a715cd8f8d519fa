use crate_indexer::ident::generate_id;
use crate_indexer::indexer::{
    extract_crate_from_use_tree, extract_docs, extract_reexports, field_records, format_signature,
    index_crate, index_file, index_files, is_source_file, retain_dependencies, variant_records, visibility_str,
    Attribute, Field, Fields, ItemEnum, ItemFn, ItemImpl, ItemMacro, ItemStruct, ItemTrait,
    ItemTyped, ItemUse, ItemVisitor, Node, ParsedFile, Signature, UseTree, Variant, Visibility,
};
use crate_indexer::manifest::parse_cargo_dependencies;
use quote::ToTokens;

fn doc(text: &str) -> Attribute {
    Attribute { is_doc: true, value: Some(text.to_string()) }
}

fn signature(name: &str) -> Signature {
    Signature {
        ident: name.to_string(),
        is_const: false,
        is_async: false,
        is_unsafe: false,
        generics: vec![],
        inputs: vec![],
        output: None,
    }
}

fn field(name: Option<&str>, ty: &str, vis: Visibility) -> Field {
    Field { ident: name.map(|n| n.to_string()), ty: ty.to_string(), vis, attrs: vec![] }
}

fn public_use(tree: UseTree) -> Node {
    Node::Use(ItemUse { vis: Visibility::Public, tree, top_level: true })
}

fn names(list: &[&str]) -> Vec<String> {
    list.iter().map(|s| s.to_string()).collect()
}

#[test]
fn documentation_joins_lines_and_drops_one_leading_space() {
    let attrs = vec![doc(" First line."), doc("  indented"), doc(""), doc(" Last.")];
    assert_eq!(extract_docs(&attrs), Some("First line.\n indented\n\nLast.".to_string()));
}

#[test]
fn documentation_is_trimmed_at_both_ends() {
    let attrs = vec![doc(""), doc("   text \t"), doc(" ")];
    assert_eq!(extract_docs(&attrs), Some("text".to_string()));
    assert_eq!(extract_docs(&vec![doc("\u{a0}wide\u{3000}")]), Some("wide".to_string()));
}

#[test]
fn documentation_is_absent_without_text() {
    assert_eq!(extract_docs(&vec![]), None);
    assert_eq!(extract_docs(&vec![doc(""), doc("   ")]), None);
    let other = Attribute { is_doc: false, value: Some("inline".to_string()) };
    let bare = Attribute { is_doc: true, value: None };
    assert_eq!(extract_docs(&vec![other.clone(), bare.clone()]), None);
    assert_eq!(extract_docs(&vec![other, doc(" kept"), bare]), Some("kept".to_string()));
}

#[test]
fn signature_puts_qualifiers_in_fixed_order() {
    let mut sig = signature("run");
    assert_eq!(format_signature(&sig), "fn run()");
    sig.is_unsafe = true;
    sig.is_async = true;
    sig.is_const = true;
    assert_eq!(format_signature(&sig), "const async unsafe fn run()");
}

#[test]
fn signature_renders_generics_arguments_and_return_type() {
    let sig = Signature {
        ident: "map".to_string(),
        is_const: false,
        is_async: true,
        is_unsafe: false,
        generics: names(&["T : Clone", "'a"]),
        inputs: names(&["& self", "f : F"]),
        output: Some("Option < T >".to_string()),
    };
    assert_eq!(format_signature(&sig), "async fn map<T : Clone, 'a>(& self, f : F) -> Option < T >");
}

#[test]
fn visibility_has_three_wordings() {
    assert_eq!(visibility_str(&Visibility::Public), "pub");
    assert_eq!(visibility_str(&Visibility::Inherited), "private");
    assert_eq!(visibility_str(&Visibility::Restricted("pub (crate)".to_string())), "pub(pub (crate))");
}

#[test]
fn named_fields_keep_their_names_and_positional_ones_are_numbered() {
    let named = Fields::Named {
        fields: vec![
            field(Some("x"), "u32", Visibility::Public),
            field(None, "u8", Visibility::Inherited),
        ],
        close_line: 9,
    };
    let records = field_records(&named);
    assert_eq!(records.len(), 2);
    assert_eq!(records[0].name, "x");
    assert_eq!(records[0].type_str, "u32");
    assert_eq!(records[0].visibility, "pub");
    assert_eq!(records[1].name, "");
    let fields: Vec<Field> = (0..12).map(|_| field(None, "i64", Visibility::Inherited)).collect();
    let records = field_records(&Fields::Unnamed { fields, close_line: 1 });
    let numbers: Vec<String> = records.iter().map(|r| r.name.clone()).collect();
    assert_eq!(numbers, names(&["0", "1", "2", "3", "4", "5", "6", "7", "8", "9", "10", "11"]));
    assert!(field_records(&Fields::Unit).is_empty());
}

#[test]
fn variants_say_what_they_hold() {
    let variants = vec![
        Variant { ident: "Empty".to_string(), fields: Fields::Unit, attrs: vec![doc(" Nothing.")] },
        Variant {
            ident: "Pair".to_string(),
            fields: Fields::Unnamed {
                fields: vec![
                    field(None, "u32", Visibility::Inherited),
                    field(None, "String", Visibility::Inherited),
                ],
                close_line: 3,
            },
            attrs: vec![],
        },
        Variant {
            ident: "Named".to_string(),
            fields: Fields::Named {
                fields: vec![
                    field(Some("a"), "u8", Visibility::Inherited),
                    field(Some("b"), "Vec < u8 >", Visibility::Inherited),
                ],
                close_line: 4,
            },
            attrs: vec![],
        },
    ];
    let records = variant_records(&variants);
    assert_eq!(records.len(), 3);
    assert_eq!((records[0].kind.as_str(), records[0].fields.clone()), ("unit", None));
    assert_eq!(records[0].docs, Some("Nothing.".to_string()));
    assert_eq!((records[1].kind.as_str(), records[1].fields.clone()), ("tuple", Some("u32, String".to_string())));
    assert_eq!(
        (records[2].kind.as_str(), records[2].fields.clone()),
        ("struct", Some("a: u8, b: Vec < u8 >".to_string()))
    );
}

#[test]
fn struct_ends_where_its_fields_close() {
    let mut visitor = ItemVisitor::new("src/geo.rs", "geo-0.3.0");
    visitor.add_struct(&ItemStruct {
        ident: "Point".to_string(),
        vis: Visibility::Public,
        fields: Fields::Named { fields: vec![field(Some("x"), "f64", Visibility::Public)], close_line: 7 },
        attrs: vec![doc(" A point.")],
        start_line: 5,
    });
    visitor.add_struct(&ItemStruct {
        ident: "Marker".to_string(),
        vis: Visibility::Inherited,
        fields: Fields::Unit,
        attrs: vec![],
        start_line: 9,
    });
    let structs = &visitor.items.structs;
    assert_eq!(structs.len(), 2);
    assert_eq!(structs[0].id, generate_id("geo-0.3.0", "src/geo.rs", "Point", 5, "struct"));
    assert_eq!(structs[0].file, "src/geo.rs");
    assert_eq!((structs[0].line, structs[0].end_line), (5, Some(7)));
    assert_eq!(structs[0].docs, Some("A point.".to_string()));
    assert_eq!(structs[0].fields.len(), 1);
    assert_eq!((structs[1].line, structs[1].end_line), (9, None));
    assert_eq!(structs[1].visibility, "private");
}

#[test]
fn every_kind_of_node_leaves_its_record() {
    let typed = |name: &str, line: usize| ItemTyped {
        ident: name.to_string(),
        vis: Visibility::Public,
        ty: "u32".to_string(),
        attrs: vec![],
        start_line: line,
    };
    let nodes = vec![
        Node::Fn(ItemFn { sig: signature("run"), attrs: vec![], start_line: 1, end_line: Some(2) }),
        Node::Enum(ItemEnum {
            ident: "Shape".to_string(),
            vis: Visibility::Public,
            variants: vec![],
            attrs: vec![],
            start_line: 3,
            end_line: 4,
        }),
        Node::Trait(ItemTrait {
            ident: "Draw".to_string(),
            vis: Visibility::Public,
            attrs: vec![],
            start_line: 5,
            end_line: 8,
        }),
        Node::Fn(ItemFn { sig: signature("draw"), attrs: vec![], start_line: 6, end_line: None }),
        Node::Macro(ItemMacro { ident: Some("point".to_string()), attrs: vec![], path_line: Some(9) }),
        Node::Macro(ItemMacro { ident: Some("lost".to_string()), attrs: vec![], path_line: None }),
        Node::Macro(ItemMacro { ident: None, attrs: vec![], path_line: Some(11) }),
        Node::Type(typed("Id", 12)),
        Node::Const(typed("MAX", 13)),
        Node::Static(typed("COUNT", 14)),
        Node::Impl(ItemImpl {
            self_ty: "Point".to_string(),
            trait_path: Some("Draw".to_string()),
            start_line: 15,
            end_line: 17,
        }),
        Node::Impl(ItemImpl { self_ty: "Point".to_string(), trait_path: None, start_line: 18, end_line: 19 }),
        Node::Other,
        public_use(UseTree::Path("serde".to_string())),
    ];
    let (items, reexports) = index_file(&nodes, "src/lib.rs", "geo-0.3.0");
    let id = |name: &str, line: usize, kind: &str| generate_id("geo-0.3.0", "src/lib.rs", name, line, kind);
    assert_eq!(items.functions.len(), 2);
    assert_eq!(items.functions[1].end_line, None);
    assert_eq!(items.enums[0].id, id("Shape", 3, "enum"));
    assert_eq!(items.enums[0].end_line, Some(4));
    assert_eq!(items.traits[0].id, id("Draw", 5, "trait"));
    assert_eq!(items.macros.len(), 2);
    assert_eq!(items.macros[0].id, id("point", 9, "macro"));
    assert_eq!((items.macros[0].kind.as_str(), items.macros[0].end_line), ("declarative", None));
    assert_eq!(items.macros[1].line, 1);
    assert_eq!(items.macros[1].id, id("lost", 1, "macro"));
    assert_eq!(items.type_aliases[0].id, id("Id", 12, "type"));
    assert_eq!(items.type_aliases[0].type_str, "u32");
    assert_eq!(items.constants.len(), 2);
    assert_eq!((items.constants[0].kind.as_str(), items.constants[1].kind.as_str()), ("const", "static"));
    assert_eq!(items.constants[0].id, id("MAX", 13, "const"));
    assert_eq!(items.constants[1].id, id("COUNT", 14, "static"));
    assert_eq!(items.impls[0].id, id("Point_Draw", 15, "impl"));
    assert_eq!(items.impls[0].trait_name, Some("Draw".to_string()));
    assert_eq!(items.impls[1].id, id("Point", 18, "impl"));
    assert_eq!(items.impls[1].trait_name, None);
    assert_eq!(reexports, names(&["serde"]));
}

#[test]
fn only_public_top_level_imports_put_names_forward() {
    let nodes = vec![
        public_use(UseTree::Path("serde_json".to_string())),
        public_use(UseTree::Name("anyhow".to_string())),
        public_use(UseTree::Rename("tokio_util".to_string())),
        public_use(UseTree::Path("self".to_string())),
        public_use(UseTree::Path("super".to_string())),
        public_use(UseTree::Path("crate".to_string())),
        public_use(UseTree::Glob),
        public_use(UseTree::Group),
        Node::Use(ItemUse { vis: Visibility::Inherited, tree: UseTree::Path("regex".to_string()), top_level: true }),
        Node::Use(ItemUse {
            vis: Visibility::Restricted("pub (crate)".to_string()),
            tree: UseTree::Path("rayon".to_string()),
            top_level: true,
        }),
        Node::Use(ItemUse { vis: Visibility::Public, tree: UseTree::Path("nested".to_string()), top_level: false }),
        public_use(UseTree::Path("serde_json".to_string())),
    ];
    assert_eq!(extract_reexports(&nodes), names(&["serde-json", "anyhow", "tokio-util", "serde-json"]));
}

#[test]
fn import_names_are_appended_in_place() {
    let mut crates = names(&["first"]);
    extract_crate_from_use_tree(&UseTree::Path("my_dep".to_string()), &mut crates);
    extract_crate_from_use_tree(&UseTree::Glob, &mut crates);
    extract_crate_from_use_tree(&UseTree::Name("crate".to_string()), &mut crates);
    assert_eq!(crates, names(&["first", "my-dep"]));
}

#[test]
fn reexport_without_declared_dependency_yields_no_edge() {
    let files = vec![ParsedFile {
        relative_path: "src/lib.rs".to_string(),
        nodes: Some(vec![
            public_use(UseTree::Path("serde".to_string())),
            public_use(UseTree::Path("internal".to_string())),
            public_use(UseTree::Path("serde".to_string())),
        ]),
    }];
    let undeclared = index_crate(&files, Some("[dependencies]\nanyhow = \"1\"\n"), "foo-1.0.0");
    assert!(undeclared.reexported_crates.is_empty());
    let declared = index_crate(&files, Some("[dependencies]\nserde = \"1\"\n"), "foo-1.0.0");
    assert_eq!(declared.reexported_crates, names(&["serde"]));
    let no_manifest = index_crate(&files, None, "foo-1.0.0");
    assert!(no_manifest.reexported_crates.is_empty());
}

#[test]
fn kept_names_are_the_declared_candidates_once_each() {
    let kept = retain_dependencies(&names(&["b", "x", "a", "b", "a"]), &names(&["a", "b", "c"]));
    assert_eq!(kept, names(&["b", "a"]));
}

#[test]
fn manifest_lists_dependencies_of_all_three_classes() {
    let manifest = "[package]\nname = \"foo\"\nversion = \"1.0.0\"\n\n[dependencies]\nserde = \"1\"\nanyhow = { version = \"1\" }\n\n[dev-dependencies]\ntempfile = \"3\"\nserde = \"1\"\n\n[build-dependencies]\ncc = \"1\"\n";
    assert_eq!(parse_cargo_dependencies(Some(manifest)), names(&["anyhow", "serde", "tempfile", "cc"]));
}

#[test]
fn missing_or_broken_manifest_declares_nothing() {
    assert!(parse_cargo_dependencies(None).is_empty());
    assert!(parse_cargo_dependencies(Some("[dependencies\nserde = ")).is_empty());
    assert!(parse_cargo_dependencies(Some("")).is_empty());
    assert!(parse_cargo_dependencies(Some("dependencies = \"none\"\n")).is_empty());
    assert!(parse_cargo_dependencies(Some("[package]\nname = \"foo\"\n")).is_empty());
}

#[test]
fn unparsed_file_is_passed_over() {
    let run = |name: &str| Node::Fn(ItemFn { sig: signature(name), attrs: vec![], start_line: 1, end_line: Some(1) });
    let files = vec![
        ParsedFile { relative_path: "src/a.rs".to_string(), nodes: Some(vec![run("a")]) },
        ParsedFile { relative_path: "src/broken.rs".to_string(), nodes: None },
        ParsedFile { relative_path: "src/b.rs".to_string(), nodes: Some(vec![run("b"), run("c")]) },
    ];
    let result = index_files(&files, &vec![], "foo-1.0.0");
    let found: Vec<(String, String)> =
        result.items.functions.iter().map(|f| (f.file.clone(), f.name.clone())).collect();
    assert_eq!(
        found,
        vec![
            ("src/a.rs".to_string(), "a".to_string()),
            ("src/b.rs".to_string(), "b".to_string()),
            ("src/b.rs".to_string(), "c".to_string()),
        ]
    );
}

#[test]
fn one_documented_function_yields_one_record() {
    let source = "/// Adds one to `x`.\npub fn add_one(x: u32) -> u32 {\n    x + 1\n}\n";
    let file = syn::parse_file(source).unwrap();
    let parsed = match &file.items[0] {
        syn::Item::Fn(f) => f,
        _ => panic!("not a function"),
    };
    let attrs: Vec<Attribute> = parsed
        .attrs
        .iter()
        .map(|a| Attribute {
            is_doc: a.path().is_ident("doc"),
            value: match &a.meta {
                syn::Meta::NameValue(nv) => match &nv.value {
                    syn::Expr::Lit(syn::ExprLit { lit: syn::Lit::Str(s), .. }) => Some(s.value()),
                    _ => None,
                },
                _ => None,
            },
        })
        .collect();
    let sig = Signature {
        ident: parsed.sig.ident.to_string(),
        is_const: parsed.sig.constness.is_some(),
        is_async: parsed.sig.asyncness.is_some(),
        is_unsafe: parsed.sig.unsafety.is_some(),
        generics: parsed.sig.generics.params.iter().map(|p| p.to_token_stream().to_string()).collect(),
        inputs: parsed.sig.inputs.iter().map(|a| a.to_token_stream().to_string()).collect(),
        output: match &parsed.sig.output {
            syn::ReturnType::Default => None,
            syn::ReturnType::Type(_, ty) => Some(ty.to_token_stream().to_string()),
        },
    };
    let node = Node::Fn(ItemFn {
        sig,
        attrs,
        start_line: parsed.sig.fn_token.span.start().line,
        end_line: Some(parsed.block.brace_token.span.close().end().line),
    });
    let files = vec![ParsedFile { relative_path: "src/lib.rs".to_string(), nodes: Some(vec![node]) }];
    let result = index_crate(&files, Some("[package]\nname = \"foo\"\n"), "foo-1.0.0");
    assert_eq!(result.items.functions.len(), 1);
    assert!(result.items.structs.is_empty() && result.items.impls.is_empty());
    let record = &result.items.functions[0];
    assert_eq!(record.name, "add_one");
    assert_eq!(record.signature, "fn add_one(x : u32) -> u32");
    assert_eq!(record.docs, Some("Adds one to `x`.".to_string()));
    assert_eq!(record.file, "src/lib.rs");
    assert_eq!((record.line, record.end_line), (2, Some(4)));
    assert_eq!(record.id, generate_id("foo-1.0.0", "src/lib.rs", "add_one", 2, "fn"));
    assert!(result.reexported_crates.is_empty());
}

#[test]
fn source_files_are_told_by_their_extension() {
    for path in ["src/lib.rs", "a.rs", "/c/foo-1.0.0/build.rs", "a..rs", "dir.d/x.y.rs"] {
        assert!(is_source_file(path), "{}", path);
        assert_eq!(std::path::Path::new(path).extension().is_some_and(|e| e == "rs"), true);
    }
    for path in ["", ".rs", "src/.rs", "lib.rsx", "rs", "src.rs/lib", "lib.RS", "a.r"] {
        assert!(!is_source_file(path), "{}", path);
        assert_eq!(std::path::Path::new(path).extension().is_some_and(|e| e == "rs"), false);
    }
}
