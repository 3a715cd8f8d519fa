//! Extraction: from the declarations of a package's source files to the
//! records of its catalog.
//!
//! A source file reaches this module as the sequence of its syntax nodes, in
//! the order in which a walk of the file meets them, every type and path
//! already rendered as text. The functions here decide what is recorded and
//! how each record is worded.

use crate::database::contains_text;
use crate::ident::{generate_id, identifier};
use crate::manifest::{declared_dependencies, parse_cargo_dependencies};
use crate::storage::{
    opt_text, row_views, ConstantInfo, ConstantInfoView, CrateItems, CrateItemsView, EnumInfo,
    EnumInfoView, FieldInfo, FieldInfoView, FunctionInfo, FunctionInfoView, ImplInfo,
    ImplInfoView, MacroInfo, MacroInfoView, StructInfo, StructInfoView, TraitInfo,
    TraitInfoView, TypeAliasInfo, TypeAliasInfoView, VariantInfo, VariantInfoView,
};
use crate::text::{
    concat3, copy_str, decimal, decimal_string, from_chars, join, join_strings, replace_char,
    replace_in, texts, to_chars, trim, trim_str,
};
use vstd::prelude::*;
use vstd::string::*;

verus! {

/// Who may use a declaration.
#[derive(Debug, Clone, PartialEq, Eq)]
pub enum Visibility {
    /// Visible everywhere.
    Public,
    /// Visible within the scope whose restriction is rendered in the text.
    Restricted(String),
    /// Visible where it is declared.
    Inherited,
}

/// An attribute of a declaration. `value` holds the text of a string
/// literal that the attribute is set to, as in `#[doc = "text"]`.
#[derive(Debug, Clone, PartialEq, Eq)]
pub struct Attribute {
    pub is_doc: bool,
    pub value: Option<String>,
}

/// The header of a function: its qualifiers and name, and the rendered
/// text of each generic parameter, of each argument and of the return type.
#[derive(Debug, Clone, PartialEq, Eq)]
pub struct Signature {
    pub ident: String,
    pub is_const: bool,
    pub is_async: bool,
    pub is_unsafe: bool,
    pub generics: Vec<String>,
    pub inputs: Vec<String>,
    pub output: Option<String>,
}

/// A field of a struct or of a variant.
#[derive(Debug, Clone, PartialEq, Eq)]
pub struct Field {
    pub ident: Option<String>,
    pub ty: String,
    pub vis: Visibility,
    pub attrs: Vec<Attribute>,
}

/// The fields of a struct or of a variant; `close_line` is the line of the
/// closing bracket.
#[derive(Debug, Clone, PartialEq, Eq)]
pub enum Fields {
    Named { fields: Vec<Field>, close_line: usize },
    Unnamed { fields: Vec<Field>, close_line: usize },
    Unit,
}

/// A variant of an enum.
#[derive(Debug, Clone, PartialEq, Eq)]
pub struct Variant {
    pub ident: String,
    pub fields: Fields,
    pub attrs: Vec<Attribute>,
}

/// The outermost part of an import: a path that starts with a name, a
/// single name, a renamed name, a wildcard or a group.
#[derive(Debug, Clone, PartialEq, Eq)]
pub enum UseTree {
    Path(String),
    Name(String),
    Rename(String),
    Glob,
    Group,
}

/// A function with a body, a method of an implementation, or a method of a
/// trait; `end_line` is the line of the closing bracket of the body, absent
/// for a method that is declared without one.
#[derive(Debug, Clone, PartialEq, Eq)]
pub struct ItemFn {
    pub sig: Signature,
    pub attrs: Vec<Attribute>,
    pub start_line: usize,
    pub end_line: Option<usize>,
}

/// A struct declaration.
#[derive(Debug, Clone, PartialEq, Eq)]
pub struct ItemStruct {
    pub ident: String,
    pub vis: Visibility,
    pub fields: Fields,
    pub attrs: Vec<Attribute>,
    pub start_line: usize,
}

/// An enum declaration.
#[derive(Debug, Clone, PartialEq, Eq)]
pub struct ItemEnum {
    pub ident: String,
    pub vis: Visibility,
    pub variants: Vec<Variant>,
    pub attrs: Vec<Attribute>,
    pub start_line: usize,
    pub end_line: usize,
}

/// A trait declaration.
#[derive(Debug, Clone, PartialEq, Eq)]
pub struct ItemTrait {
    pub ident: String,
    pub vis: Visibility,
    pub attrs: Vec<Attribute>,
    pub start_line: usize,
    pub end_line: usize,
}

/// A macro invocation in item position. A macro definition has a name;
/// `path_line` is the line of the macro's path, where it has one.
#[derive(Debug, Clone, PartialEq, Eq)]
pub struct ItemMacro {
    pub ident: Option<String>,
    pub attrs: Vec<Attribute>,
    pub path_line: Option<usize>,
}

/// A type alias, a constant or a static: a name with a type.
#[derive(Debug, Clone, PartialEq, Eq)]
pub struct ItemTyped {
    pub ident: String,
    pub vis: Visibility,
    pub ty: String,
    pub attrs: Vec<Attribute>,
    pub start_line: usize,
}

/// An implementation block.
#[derive(Debug, Clone, PartialEq, Eq)]
pub struct ItemImpl {
    pub self_ty: String,
    pub trait_path: Option<String>,
    pub start_line: usize,
    pub end_line: usize,
}

/// An import; `top_level` tells whether it stands at the top of its file.
#[derive(Debug, Clone, PartialEq, Eq)]
pub struct ItemUse {
    pub vis: Visibility,
    pub tree: UseTree,
    pub top_level: bool,
}

/// One node of a source file.
#[derive(Debug, Clone, PartialEq, Eq)]
pub enum Node {
    Fn(ItemFn),
    Struct(ItemStruct),
    Enum(ItemEnum),
    Trait(ItemTrait),
    Macro(ItemMacro),
    Type(ItemTyped),
    Const(ItemTyped),
    Static(ItemTyped),
    Impl(ItemImpl),
    Use(ItemUse),
    /// Anything that leaves no record.
    Other,
}

/// The record of a function.
pub open spec fn function_record(
    package: Seq<char>,
    file: Seq<char>,
    sig: Signature,
    attrs: Seq<Attribute>,
    start_line: usize,
    end_line: Option<usize>,
) -> FunctionInfoView {
    FunctionInfoView {
        id: identifier(package, file, sig.ident@, start_line, "fn"@),
        name: sig.ident@,
        file: file,
        line: start_line,
        end_line: end_line,
        signature: signature_text(sig),
        docs: docs_of(attrs),
    }
}

/// The record of a struct.
pub open spec fn struct_record(package: Seq<char>, file: Seq<char>, item: ItemStruct) -> StructInfoView {
    StructInfoView {
        id: identifier(package, file, item.ident@, item.start_line, "struct"@),
        name: item.ident@,
        file: file,
        line: item.start_line,
        end_line: fields_end_line(item.fields),
        visibility: visibility_text(item.vis),
        fields: field_infos(item.fields),
        docs: docs_of(item.attrs@),
    }
}

/// The record of an enum.
pub open spec fn enum_record(package: Seq<char>, file: Seq<char>, item: ItemEnum) -> EnumInfoView {
    EnumInfoView {
        id: identifier(package, file, item.ident@, item.start_line, "enum"@),
        name: item.ident@,
        file: file,
        line: item.start_line,
        end_line: Some(item.end_line),
        visibility: visibility_text(item.vis),
        variants: item.variants@.map_values(|v: Variant| variant_info(v)),
        docs: docs_of(item.attrs@),
    }
}

/// The record of a trait.
pub open spec fn trait_record(package: Seq<char>, file: Seq<char>, item: ItemTrait) -> TraitInfoView {
    TraitInfoView {
        id: identifier(package, file, item.ident@, item.start_line, "trait"@),
        name: item.ident@,
        file: file,
        line: item.start_line,
        end_line: Some(item.end_line),
        visibility: visibility_text(item.vis),
        docs: docs_of(item.attrs@),
    }
}

/// The first line of a macro: that of its path, or line one without a path.
pub open spec fn macro_line(item: ItemMacro) -> usize {
    match item.path_line {
        Some(l) => l,
        None => 1,
    }
}

/// The record of a macro definition named `name`.
pub open spec fn macro_record(
    package: Seq<char>,
    file: Seq<char>,
    item: ItemMacro,
    name: Seq<char>,
) -> MacroInfoView {
    MacroInfoView {
        id: identifier(package, file, name, macro_line(item), "macro"@),
        name: name,
        file: file,
        line: macro_line(item),
        end_line: None,
        kind: "declarative"@,
        docs: docs_of(item.attrs@),
    }
}

/// The record of a type alias.
pub open spec fn type_alias_record(package: Seq<char>, file: Seq<char>, item: ItemTyped) -> TypeAliasInfoView {
    TypeAliasInfoView {
        id: identifier(package, file, item.ident@, item.start_line, "type"@),
        name: item.ident@,
        file: file,
        line: item.start_line,
        type_str: item.ty@,
        visibility: visibility_text(item.vis),
        docs: docs_of(item.attrs@),
    }
}

/// The record of a constant (`kind` is `const`) or of a static (`kind` is
/// `static`).
pub open spec fn constant_record(
    package: Seq<char>,
    file: Seq<char>,
    item: ItemTyped,
    kind: Seq<char>,
) -> ConstantInfoView {
    ConstantInfoView {
        id: identifier(package, file, item.ident@, item.start_line, kind),
        name: item.ident@,
        file: file,
        line: item.start_line,
        kind: kind,
        type_str: item.ty@,
        visibility: visibility_text(item.vis),
        docs: docs_of(item.attrs@),
    }
}

/// The name under which an implementation is identified: its self type,
/// followed by an underscore and its trait where it has one.
pub open spec fn impl_name(item: ItemImpl) -> Seq<char> {
    match item.trait_path {
        Some(t) => item.self_ty@ + "_"@ + t@,
        None => item.self_ty@,
    }
}

/// The record of an implementation.
pub open spec fn impl_record(package: Seq<char>, file: Seq<char>, item: ItemImpl) -> ImplInfoView {
    ImplInfoView {
        id: identifier(package, file, impl_name(item), item.start_line, "impl"@),
        file: file,
        line: item.start_line,
        end_line: Some(item.end_line),
        self_type: item.self_ty@,
        trait_name: opt_text(item.trait_path),
    }
}

/// The catalog `items` after the walk has met `node`.
pub open spec fn with_node(
    items: CrateItemsView,
    node: Node,
    package: Seq<char>,
    file: Seq<char>,
) -> CrateItemsView {
    match node {
        Node::Fn(f) => CrateItemsView {
            functions: items.functions.push(
                function_record(package, file, f.sig, f.attrs@, f.start_line, f.end_line),
            ),
            ..items
        },
        Node::Struct(s) => CrateItemsView {
            structs: items.structs.push(struct_record(package, file, s)),
            ..items
        },
        Node::Enum(e) => CrateItemsView {
            enums: items.enums.push(enum_record(package, file, e)),
            ..items
        },
        Node::Trait(t) => CrateItemsView {
            traits: items.traits.push(trait_record(package, file, t)),
            ..items
        },
        Node::Macro(m) => match m.ident {
            Some(name) => CrateItemsView {
                macros: items.macros.push(macro_record(package, file, m, name@)),
                ..items
            },
            None => items,
        },
        Node::Type(t) => CrateItemsView {
            type_aliases: items.type_aliases.push(type_alias_record(package, file, t)),
            ..items
        },
        Node::Const(c) => CrateItemsView {
            constants: items.constants.push(constant_record(package, file, c, "const"@)),
            ..items
        },
        Node::Static(c) => CrateItemsView {
            constants: items.constants.push(constant_record(package, file, c, "static"@)),
            ..items
        },
        Node::Impl(i) => CrateItemsView {
            impls: items.impls.push(impl_record(package, file, i)),
            ..items
        },
        Node::Use(_) => items,
        Node::Other => items,
    }
}

/// The catalog `items` after the walk has met `nodes` in order.
pub open spec fn with_nodes(
    items: CrateItemsView,
    nodes: Seq<Node>,
    package: Seq<char>,
    file: Seq<char>,
) -> CrateItemsView
    decreases nodes.len(),
{
    if nodes.len() == 0 {
        items
    } else {
        with_node(with_nodes(items, nodes.drop_last(), package, file), nodes.last(), package, file)
    }
}

/// The name of the package that an import may bring in from outside: the
/// first name of the import with hyphens for underscores, unless that name
/// points into the importing package itself. Wildcards and groups name no
/// package.
pub open spec fn use_candidate(tree: UseTree) -> Option<Seq<char>> {
    match tree {
        UseTree::Path(i) => external_name(i@),
        UseTree::Name(i) => external_name(i@),
        UseTree::Rename(i) => external_name(i@),
        UseTree::Glob => None,
        UseTree::Group => None,
    }
}

/// `ident` as a package name, unless it is `self`, `super` or `crate`.
pub open spec fn external_name(ident: Seq<char>) -> Option<Seq<char>> {
    if ident == "self"@ || ident == "super"@ || ident == "crate"@ {
        None
    } else {
        Some(replace_char(ident, '_', '-'))
    }
}

/// The package name that a node puts forward as re-exported: that of a
/// public import at the top level of the file.
pub open spec fn node_candidate(node: Node) -> Option<Seq<char>> {
    match node {
        Node::Use(u) => if u.top_level && u.vis == Visibility::Public {
            use_candidate(u.tree)
        } else {
            None
        },
        _ => None,
    }
}

/// The package names that a file puts forward as re-exported, in order.
pub open spec fn reexport_candidates(nodes: Seq<Node>) -> Seq<Seq<char>>
    decreases nodes.len(),
{
    if nodes.len() == 0 {
        Seq::empty()
    } else {
        let rest = reexport_candidates(nodes.drop_last());
        match node_candidate(nodes.last()) {
            Some(c) => rest.push(c),
            None => rest,
        }
    }
}

/// Collects the records of one source file.
pub struct ItemVisitor {
    pub items: CrateItems,
    pub file_path: String,
    pub crate_name: String,
}

impl ItemVisitor {
    /// A visitor for the file `file_path` of the package `crate_name`, with
    /// nothing collected yet.
    pub fn new(file_path: &str, crate_name: &str) -> (r: Self)
        ensures
            r.items@ == CrateItemsView::empty(),
            r.file_path@ == file_path@,
            r.crate_name@ == crate_name@,
    {
        ItemVisitor {
            items: CrateItems::new(),
            file_path: copy_str(file_path),
            crate_name: copy_str(crate_name),
        }
    }

    /// The identifier of the declaration `name` of kind `kind` that starts
    /// at `line` of this visitor's file.
    pub fn generate_id(&self, name: &str, line: usize, kind: &str) -> (r: String)
        ensures
            r@ == identifier(self.crate_name@, self.file_path@, name@, line, kind@),
    {
        generate_id(self.crate_name.as_str(), self.file_path.as_str(), name, line, kind)
    }

    /// Records a function.
    pub fn add_function(
        &mut self,
        sig: &Signature,
        attrs: &Vec<Attribute>,
        start_line: usize,
        end_line: Option<usize>,
    )
        ensures
            final(self).file_path == old(self).file_path,
            final(self).crate_name == old(self).crate_name,
            final(self).items@ == with_node(
                old(self).items@,
                Node::Fn(ItemFn { sig: *sig, attrs: *attrs, start_line, end_line }),
                old(self).crate_name@,
                old(self).file_path@,
            ),
    {
        let signature = format_signature(sig);
        let docs = extract_docs(attrs);
        let name = sig.ident.clone();
        let id = self.generate_id(name.as_str(), start_line, "fn");
        let info = FunctionInfo {
            id,
            name,
            file: self.file_path.clone(),
            line: start_line,
            end_line,
            signature,
            docs,
        };
        let ghost before = self.items.functions@;
        self.items.functions.push(info);
        assert(row_views(self.items.functions@) =~= row_views(before).push(info@));
    }

    /// Records a struct with its fields.
    pub fn add_struct(&mut self, item: &ItemStruct)
        ensures
            final(self).file_path == old(self).file_path,
            final(self).crate_name == old(self).crate_name,
            final(self).items@ == with_node(
                old(self).items@,
                Node::Struct(*item),
                old(self).crate_name@,
                old(self).file_path@,
            ),
    {
        let start_line = item.start_line;
        let end_line = fields_last_line(&item.fields);
        let fields = field_records(&item.fields);
        let name = item.ident.clone();
        let info = StructInfo {
            id: self.generate_id(name.as_str(), start_line, "struct"),
            name,
            file: self.file_path.clone(),
            line: start_line,
            end_line,
            visibility: visibility_str(&item.vis),
            fields,
            docs: extract_docs(&item.attrs),
        };
        let ghost before = self.items.structs@;
        self.items.structs.push(info);
        assert(row_views(self.items.structs@) =~= row_views(before).push(info@));
    }

    /// Records an enum with its variants.
    pub fn add_enum(&mut self, item: &ItemEnum)
        ensures
            final(self).file_path == old(self).file_path,
            final(self).crate_name == old(self).crate_name,
            final(self).items@ == with_node(
                old(self).items@,
                Node::Enum(*item),
                old(self).crate_name@,
                old(self).file_path@,
            ),
    {
        let start_line = item.start_line;
        let variants = variant_records(&item.variants);
        let name = item.ident.clone();
        let info = EnumInfo {
            id: self.generate_id(name.as_str(), start_line, "enum"),
            name,
            file: self.file_path.clone(),
            line: start_line,
            end_line: Some(item.end_line),
            visibility: visibility_str(&item.vis),
            variants,
            docs: extract_docs(&item.attrs),
        };
        let ghost before = self.items.enums@;
        self.items.enums.push(info);
        assert(row_views(self.items.enums@) =~= row_views(before).push(info@));
    }

    /// Records a trait.
    pub fn add_trait(&mut self, item: &ItemTrait)
        ensures
            final(self).file_path == old(self).file_path,
            final(self).crate_name == old(self).crate_name,
            final(self).items@ == with_node(
                old(self).items@,
                Node::Trait(*item),
                old(self).crate_name@,
                old(self).file_path@,
            ),
    {
        let start_line = item.start_line;
        let name = item.ident.clone();
        let info = TraitInfo {
            id: self.generate_id(name.as_str(), start_line, "trait"),
            name,
            file: self.file_path.clone(),
            line: start_line,
            end_line: Some(item.end_line),
            visibility: visibility_str(&item.vis),
            docs: extract_docs(&item.attrs),
        };
        let ghost before = self.items.traits@;
        self.items.traits.push(info);
        assert(row_views(self.items.traits@) =~= row_views(before).push(info@));
    }

    /// Records a macro definition; a macro invocation without a name leaves
    /// no record.
    pub fn add_macro(&mut self, item: &ItemMacro)
        ensures
            final(self).file_path == old(self).file_path,
            final(self).crate_name == old(self).crate_name,
            final(self).items@ == with_node(
                old(self).items@,
                Node::Macro(*item),
                old(self).crate_name@,
                old(self).file_path@,
            ),
    {
        match &item.ident {
            Some(ident) => {
                let start_line = match item.path_line {
                    Some(l) => l,
                    None => 1,
                };
                let name = ident.clone();
                let info = MacroInfo {
                    id: self.generate_id(name.as_str(), start_line, "macro"),
                    name,
                    file: self.file_path.clone(),
                    line: start_line,
                    end_line: None,
                    kind: String::from_str("declarative"),
                    docs: extract_docs(&item.attrs),
                };
                let ghost before = self.items.macros@;
                self.items.macros.push(info);
                assert(row_views(self.items.macros@) =~= row_views(before).push(info@));
            },
            None => {},
        }
    }

    /// Records a type alias.
    pub fn add_type_alias(&mut self, item: &ItemTyped)
        ensures
            final(self).file_path == old(self).file_path,
            final(self).crate_name == old(self).crate_name,
            final(self).items@ == with_node(
                old(self).items@,
                Node::Type(*item),
                old(self).crate_name@,
                old(self).file_path@,
            ),
    {
        let start_line = item.start_line;
        let name = item.ident.clone();
        let info = TypeAliasInfo {
            id: self.generate_id(name.as_str(), start_line, "type"),
            name,
            file: self.file_path.clone(),
            line: start_line,
            type_str: item.ty.clone(),
            visibility: visibility_str(&item.vis),
            docs: extract_docs(&item.attrs),
        };
        let ghost before = self.items.type_aliases@;
        self.items.type_aliases.push(info);
        assert(row_views(self.items.type_aliases@) =~= row_views(before).push(info@));
    }

    /// Records a constant or a static under the kind tag `kind`.
    fn add_constant(&mut self, item: &ItemTyped, kind: &str)
        ensures
            final(self).file_path == old(self).file_path,
            final(self).crate_name == old(self).crate_name,
            final(self).items@ == (CrateItemsView {
                constants: old(self).items@.constants.push(
                    constant_record(old(self).crate_name@, old(self).file_path@, *item, kind@),
                ),
                ..old(self).items@
            }),
    {
        let start_line = item.start_line;
        let name = item.ident.clone();
        let info = ConstantInfo {
            id: self.generate_id(name.as_str(), start_line, kind),
            name,
            file: self.file_path.clone(),
            line: start_line,
            kind: copy_str(kind),
            type_str: item.ty.clone(),
            visibility: visibility_str(&item.vis),
            docs: extract_docs(&item.attrs),
        };
        let ghost before = self.items.constants@;
        self.items.constants.push(info);
        assert(row_views(self.items.constants@) =~= row_views(before).push(info@));
    }

    /// Records a constant.
    pub fn add_const(&mut self, item: &ItemTyped)
        ensures
            final(self).file_path == old(self).file_path,
            final(self).crate_name == old(self).crate_name,
            final(self).items@ == with_node(
                old(self).items@,
                Node::Const(*item),
                old(self).crate_name@,
                old(self).file_path@,
            ),
    {
        self.add_constant(item, "const");
    }

    /// Records a static.
    pub fn add_static(&mut self, item: &ItemTyped)
        ensures
            final(self).file_path == old(self).file_path,
            final(self).crate_name == old(self).crate_name,
            final(self).items@ == with_node(
                old(self).items@,
                Node::Static(*item),
                old(self).crate_name@,
                old(self).file_path@,
            ),
    {
        self.add_constant(item, "static");
    }

    /// Records an implementation block.
    pub fn add_impl(&mut self, item: &ItemImpl)
        ensures
            final(self).file_path == old(self).file_path,
            final(self).crate_name == old(self).crate_name,
            final(self).items@ == with_node(
                old(self).items@,
                Node::Impl(*item),
                old(self).crate_name@,
                old(self).file_path@,
            ),
    {
        let start_line = item.start_line;
        let self_type = item.self_ty.clone();
        let id_name = match &item.trait_path {
            Some(t) => concat3(self_type.as_str(), "_", t.as_str()),
            None => self_type.clone(),
        };
        let info = ImplInfo {
            id: self.generate_id(id_name.as_str(), start_line, "impl"),
            file: self.file_path.clone(),
            line: start_line,
            end_line: Some(item.end_line),
            self_type,
            trait_name: crate::storage::clone_opt_text(&item.trait_path),
        };
        let ghost before = self.items.impls@;
        self.items.impls.push(info);
        assert(row_views(self.items.impls@) =~= row_views(before).push(info@));
    }

    /// Records what `node` declares.
    pub fn visit_item(&mut self, node: &Node)
        ensures
            final(self).file_path == old(self).file_path,
            final(self).crate_name == old(self).crate_name,
            final(self).items@ == with_node(
                old(self).items@,
                *node,
                old(self).crate_name@,
                old(self).file_path@,
            ),
    {
        match node {
            Node::Fn(f) => self.add_function(&f.sig, &f.attrs, f.start_line, f.end_line),
            Node::Struct(s) => self.add_struct(s),
            Node::Enum(e) => self.add_enum(e),
            Node::Trait(t) => self.add_trait(t),
            Node::Macro(m) => self.add_macro(m),
            Node::Type(t) => self.add_type_alias(t),
            Node::Const(c) => self.add_const(c),
            Node::Static(s) => self.add_static(s),
            Node::Impl(i) => self.add_impl(i),
            Node::Use(_) => {},
            Node::Other => {},
        }
    }
}

/// The text of a visibility.
pub open spec fn visibility_text(vis: Visibility) -> Seq<char> {
    match vis {
        Visibility::Public => "pub"@,
        Visibility::Restricted(r) => "pub("@ + r@ + ")"@,
        Visibility::Inherited => "private"@,
    }
}

/// A documentation line without the one space that follows `///`.
pub open spec fn strip_space(line: Seq<char>) -> Seq<char> {
    if line.len() > 0 && line[0] == ' ' {
        line.drop_first()
    } else {
        line
    }
}

/// The documentation line that an attribute contributes, if it does.
pub open spec fn doc_line(a: Attribute) -> Option<Seq<char>> {
    if a.is_doc {
        match a.value {
            Some(v) => Some(strip_space(v@)),
            None => None,
        }
    } else {
        None
    }
}

/// The documentation lines among `attrs`, in order.
pub open spec fn doc_lines(attrs: Seq<Attribute>) -> Seq<Seq<char>>
    decreases attrs.len(),
{
    if attrs.len() == 0 {
        Seq::empty()
    } else {
        let rest = doc_lines(attrs.drop_last());
        match doc_line(attrs.last()) {
            Some(l) => rest.push(l),
            None => rest,
        }
    }
}

/// The documentation of a declaration: its documentation lines joined by
/// line breaks, without white space at either end; nothing when there is no
/// line or only white space.
pub open spec fn docs_of(attrs: Seq<Attribute>) -> Option<Seq<char>> {
    let lines = doc_lines(attrs);
    if lines.len() == 0 {
        None
    } else {
        let t = trim(join(lines, seq!['\n']));
        if t.len() == 0 {
            None
        } else {
            Some(t)
        }
    }
}

/// The generic parameters of a signature between angle brackets; nothing
/// when there are none.
pub open spec fn generics_text(generics: Seq<Seq<char>>) -> Seq<char> {
    if generics.len() == 0 {
        Seq::empty()
    } else {
        "<"@ + join(generics, ", "@) + ">"@
    }
}

/// The return type of a signature after an arrow; nothing when there is
/// none.
pub open spec fn output_text(output: Option<String>) -> Seq<char> {
    match output {
        Some(ty) => " -> "@ + ty@,
        None => Seq::empty(),
    }
}

/// The qualifiers of a signature, in the order `const`, `async`, `unsafe`.
pub open spec fn qualifiers_text(sig: Signature) -> Seq<char> {
    (if sig.is_const {
        "const "@
    } else {
        Seq::empty()
    }) + (if sig.is_async {
        "async "@
    } else {
        Seq::empty()
    }) + (if sig.is_unsafe {
        "unsafe "@
    } else {
        Seq::empty()
    })
}

/// The rendered signature of a function: qualifiers, `fn`, the name, the
/// generic parameters, the arguments in parentheses and the return type.
pub open spec fn signature_text(sig: Signature) -> Seq<char> {
    qualifiers_text(sig) + "fn "@ + sig.ident@ + generics_text(texts(sig.generics@)) + "("@ + join(
        texts(sig.inputs@),
        ", "@,
    ) + ")"@ + output_text(sig.output)
}

/// The name of a field; a field without a name has the empty name.
pub open spec fn field_name(f: Field) -> Seq<char> {
    match f.ident {
        Some(i) => i@,
        None => Seq::empty(),
    }
}

/// The record of a named field.
pub open spec fn named_field(f: Field) -> FieldInfoView {
    FieldInfoView {
        name: field_name(f),
        type_str: f.ty@,
        visibility: visibility_text(f.vis),
        docs: docs_of(f.attrs@),
    }
}

/// The record of the positional field at `index`, which is named by its
/// position.
pub open spec fn unnamed_field(f: Field, index: int) -> FieldInfoView {
    FieldInfoView {
        name: decimal(index as nat),
        type_str: f.ty@,
        visibility: visibility_text(f.vis),
        docs: docs_of(f.attrs@),
    }
}

/// The field records of a struct.
pub open spec fn field_infos(fields: Fields) -> Seq<FieldInfoView> {
    match fields {
        Fields::Named { fields, close_line } => fields@.map_values(|f: Field| named_field(f)),
        Fields::Unnamed { fields, close_line } => Seq::new(
            fields@.len(),
            |i: int| unnamed_field(fields@[i], i),
        ),
        Fields::Unit => Seq::empty(),
    }
}

/// The last line of a struct: that of its closing bracket, if it has one.
pub open spec fn fields_end_line(fields: Fields) -> Option<usize> {
    match fields {
        Fields::Named { fields, close_line } => Some(close_line),
        Fields::Unnamed { fields, close_line } => Some(close_line),
        Fields::Unit => None,
    }
}

/// A named field of a variant, as `name: type`.
pub open spec fn variant_field_text(f: Field) -> Seq<char> {
    field_name(f) + ": "@ + f.ty@
}

/// The kind tag of a variant.
pub open spec fn variant_kind(fields: Fields) -> Seq<char> {
    match fields {
        Fields::Unit => "unit"@,
        Fields::Unnamed { fields, close_line } => "tuple"@,
        Fields::Named { fields, close_line } => "struct"@,
    }
}

/// The fields of a variant in one line: the types of a tuple variant, the
/// names and types of a struct variant, nothing for a unit variant.
pub open spec fn variant_fields_text(fields: Fields) -> Option<Seq<char>> {
    match fields {
        Fields::Unit => None,
        Fields::Unnamed { fields, close_line } => Some(
            join(fields@.map_values(|f: Field| f.ty@), ", "@),
        ),
        Fields::Named { fields, close_line } => Some(
            join(fields@.map_values(|f: Field| variant_field_text(f)), ", "@),
        ),
    }
}

/// The record of a variant.
pub open spec fn variant_info(v: Variant) -> VariantInfoView {
    VariantInfoView {
        name: v.ident@,
        kind: variant_kind(v.fields),
        fields: variant_fields_text(v.fields),
        docs: docs_of(v.attrs@),
    }
}

/// The text of a visibility.
pub fn visibility_str(vis: &Visibility) -> (r: String)
    ensures
        r@ == visibility_text(*vis),
{
    match vis {
        Visibility::Public => String::from_str("pub"),
        Visibility::Restricted(r) => concat3("pub(", r.as_str(), ")"),
        Visibility::Inherited => String::from_str("private"),
    }
}

/// `line` without the one space that follows `///`.
fn strip_one_space(line: &str) -> (r: String)
    ensures
        r@ == strip_space(line@),
{
    let v = to_chars(line);
    if v.len() > 0 && v[0] == ' ' {
        let r = from_chars(&v, 1, v.len());
        assert(v@.subrange(1, v.len() as int) == v@.drop_first());
        r
    } else {
        String::from_str(line)
    }
}

/// The documentation of a declaration with the attributes `attrs`.
pub fn extract_docs(attrs: &Vec<Attribute>) -> (r: Option<String>)
    ensures
        opt_text(r) == docs_of(attrs@),
{
    let mut lines: Vec<String> = Vec::new();
    let mut i: usize = 0;
    while i < attrs.len()
        invariant
            i <= attrs.len(),
            texts(lines@) == doc_lines(attrs@.take(i as int)),
        decreases attrs.len() - i,
    {
        assert(attrs@.take(i + 1).drop_last() == attrs@.take(i as int));
        assert(attrs@.take(i + 1).last() == attrs@[i as int]);
        if attrs[i].is_doc {
            match &attrs[i].value {
                Some(v) => {
                    let ghost before = lines@;
                    let line = strip_one_space(v.as_str());
                    lines.push(line);
                    assert(texts(lines@) =~= texts(before).push(strip_space(v@)));
                },
                None => {},
            }
        }
        i += 1;
    }
    assert(attrs@.take(attrs.len() as int) == attrs@);
    if lines.len() == 0 {
        return None;
    }
    proof {
        reveal_strlit("\n");
        assert("\n"@ == seq!['\n']);
    }
    let joined = join_strings(&lines, "\n");
    let trimmed = trim_str(joined.as_str());
    if trimmed.as_str().is_empty() {
        None
    } else {
        Some(trimmed)
    }
}

/// The rendered signature of a function.
pub fn format_signature(sig: &Signature) -> (r: String)
    ensures
        r@ == signature_text(*sig),
{
    let mut out = String::new();
    if sig.is_const {
        out.append("const ");
    }
    if sig.is_async {
        out.append("async ");
    }
    if sig.is_unsafe {
        out.append("unsafe ");
    }
    assert(out@ =~= qualifiers_text(*sig));
    out.append("fn ");
    out.append(sig.ident.as_str());
    if sig.generics.len() > 0 {
        let params = join_strings(&sig.generics, ", ");
        out.append("<");
        out.append(params.as_str());
        out.append(">");
    }
    assert(out@ =~= qualifiers_text(*sig) + "fn "@ + sig.ident@ + generics_text(
        texts(sig.generics@),
    ));
    let inputs = join_strings(&sig.inputs, ", ");
    out.append("(");
    out.append(inputs.as_str());
    out.append(")");
    match &sig.output {
        Some(ty) => {
            out.append(" -> ");
            out.append(ty.as_str());
        },
        None => {},
    }
    assert(out@ =~= signature_text(*sig));
    out
}

/// The name of a field; a field without a name has the empty name.
fn field_name_of(f: &Field) -> (r: String)
    ensures
        r@ == field_name(*f),
{
    match &f.ident {
        Some(i) => i.clone(),
        None => String::new(),
    }
}

/// The field records of a struct.
pub fn field_records(fields: &Fields) -> (r: Vec<FieldInfo>)
    ensures
        row_views(r@) == field_infos(*fields),
{
    let mut out: Vec<FieldInfo> = Vec::new();
    match fields {
        Fields::Named { fields: list, close_line } => {
            let mut i: usize = 0;
            while i < list.len()
                invariant
                    i <= list.len(),
                    row_views(out@) == list@.map_values(|f: Field| named_field(f)).take(i as int),
                decreases list.len() - i,
            {
                let f = &list[i];
                let ghost before = out@;
                let info = FieldInfo {
                    name: field_name_of(f),
                    type_str: f.ty.clone(),
                    visibility: visibility_str(&f.vis),
                    docs: extract_docs(&f.attrs),
                };
                assert(info@ == named_field(*f));
                out.push(info);
                assert(row_views(out@) =~= row_views(before).push(info@));
                assert(row_views(out@) =~= list@.map_values(|f: Field| named_field(f)).take(i + 1));
                i += 1;
            }
            assert(list@.map_values(|f: Field| named_field(f)).take(list.len() as int)
                == list@.map_values(|f: Field| named_field(f)));
        },
        Fields::Unnamed { fields: list, close_line } => {
            let mut i: usize = 0;
            while i < list.len()
                invariant
                    i <= list.len(),
                    row_views(out@) == Seq::new(
                        list@.len(),
                        |k: int| unnamed_field(list@[k], k),
                    ).take(i as int),
                decreases list.len() - i,
            {
                let f = &list[i];
                let ghost before = out@;
                let info = FieldInfo {
                    name: decimal_string(i),
                    type_str: f.ty.clone(),
                    visibility: visibility_str(&f.vis),
                    docs: extract_docs(&f.attrs),
                };
                assert(info@ == unnamed_field(*f, i as int));
                out.push(info);
                assert(row_views(out@) =~= row_views(before).push(info@));
                assert(row_views(out@) =~= Seq::new(
                    list@.len(),
                    |k: int| unnamed_field(list@[k], k),
                ).take(i + 1));
                i += 1;
            }
            assert(Seq::new(list@.len(), |k: int| unnamed_field(list@[k], k)).take(
                list.len() as int,
            ) == Seq::new(list@.len(), |k: int| unnamed_field(list@[k], k)));
        },
        Fields::Unit => {
            assert(row_views(out@) =~= Seq::<FieldInfoView>::empty());
        },
    }
    out
}

/// The last line of a struct with the fields `fields`.
pub fn fields_last_line(fields: &Fields) -> (r: Option<usize>)
    ensures
        r == fields_end_line(*fields),
{
    match fields {
        Fields::Named { fields: _, close_line } => Some(*close_line),
        Fields::Unnamed { fields: _, close_line } => Some(*close_line),
        Fields::Unit => None,
    }
}

/// The fields of a variant in one line.
pub fn variant_fields(fields: &Fields) -> (r: Option<String>)
    ensures
        opt_text(r) == variant_fields_text(*fields),
{
    match fields {
        Fields::Unit => None,
        Fields::Unnamed { fields: list, close_line } => {
            let mut parts: Vec<String> = Vec::new();
            let mut i: usize = 0;
            while i < list.len()
                invariant
                    i <= list.len(),
                    texts(parts@) == list@.map_values(|f: Field| f.ty@).take(i as int),
                decreases list.len() - i,
            {
                let ghost before = parts@;
                parts.push(list[i].ty.clone());
                assert(texts(parts@) =~= texts(before).push(list@[i as int].ty@));
                assert(texts(parts@) =~= list@.map_values(|f: Field| f.ty@).take(i + 1));
                i += 1;
            }
            assert(list@.map_values(|f: Field| f.ty@).take(list.len() as int) == list@.map_values(
                |f: Field| f.ty@,
            ));
            Some(join_strings(&parts, ", "))
        },
        Fields::Named { fields: list, close_line } => {
            let mut parts: Vec<String> = Vec::new();
            let mut i: usize = 0;
            while i < list.len()
                invariant
                    i <= list.len(),
                    texts(parts@) == list@.map_values(|f: Field| variant_field_text(f)).take(
                        i as int,
                    ),
                decreases list.len() - i,
            {
                let ghost before = parts@;
                let name = field_name_of(&list[i]);
                let part = concat3(name.as_str(), ": ", list[i].ty.as_str());
                parts.push(part);
                assert(texts(parts@) =~= texts(before).push(variant_field_text(list@[i as int])));
                assert(texts(parts@) =~= list@.map_values(|f: Field| variant_field_text(f)).take(
                    i + 1,
                ));
                i += 1;
            }
            assert(list@.map_values(|f: Field| variant_field_text(f)).take(list.len() as int)
                == list@.map_values(|f: Field| variant_field_text(f)));
            Some(join_strings(&parts, ", "))
        },
    }
}

/// The kind tag of a variant with the fields `fields`.
pub fn variant_kind_of(fields: &Fields) -> (r: String)
    ensures
        r@ == variant_kind(*fields),
{
    match fields {
        Fields::Unit => String::from_str("unit"),
        Fields::Unnamed { fields: _, close_line: _ } => String::from_str("tuple"),
        Fields::Named { fields: _, close_line: _ } => String::from_str("struct"),
    }
}

/// The variant records of an enum.
pub fn variant_records(variants: &Vec<Variant>) -> (r: Vec<VariantInfo>)
    ensures
        row_views(r@) == variants@.map_values(|v: Variant| variant_info(v)),
{
    let mut out: Vec<VariantInfo> = Vec::new();
    let mut i: usize = 0;
    while i < variants.len()
        invariant
            i <= variants.len(),
            row_views(out@) == variants@.map_values(|v: Variant| variant_info(v)).take(i as int),
        decreases variants.len() - i,
    {
        let v = &variants[i];
        let ghost before = out@;
        let info = VariantInfo {
            name: v.ident.clone(),
            kind: variant_kind_of(&v.fields),
            fields: variant_fields(&v.fields),
            docs: extract_docs(&v.attrs),
        };
        assert(info@ == variant_info(*v));
        out.push(info);
        assert(row_views(out@) =~= row_views(before).push(info@));
        assert(row_views(out@) =~= variants@.map_values(|v: Variant| variant_info(v)).take(i + 1));
        i += 1;
    }
    assert(variants@.map_values(|v: Variant| variant_info(v)).take(variants.len() as int)
        == variants@.map_values(|v: Variant| variant_info(v)));
    out
}

/// `ident` as a package name, unless it is `self`, `super` or `crate`.
fn external_name_of(ident: &str) -> (r: Option<String>)
    ensures
        opt_text(r) == external_name(ident@),
{
    if *ident == *"self" || *ident == *"super" || *ident == *"crate" {
        None
    } else {
        Some(replace_in(ident, '_', '-'))
    }
}

/// Appends to `crates` the package name that the import `tree` may bring in
/// from outside, if it names one.
pub fn extract_crate_from_use_tree(tree: &UseTree, crates: &mut Vec<String>)
    ensures
        texts(final(crates)@) == match use_candidate(*tree) {
            Some(c) => texts(old(crates)@).push(c),
            None => texts(old(crates)@),
        },
{
    let found = match tree {
        UseTree::Path(i) => external_name_of(i.as_str()),
        UseTree::Name(i) => external_name_of(i.as_str()),
        UseTree::Rename(i) => external_name_of(i.as_str()),
        UseTree::Glob => None,
        UseTree::Group => None,
    };
    match found {
        Some(name) => {
            let ghost before = crates@;
            crates.push(name);
            assert(texts(crates@) =~= texts(before).push(name@));
        },
        None => {},
    }
}

/// Whether `vis` is the public visibility.
fn is_public(vis: &Visibility) -> (r: bool)
    ensures
        r == (*vis == Visibility::Public),
{
    match vis {
        Visibility::Public => true,
        _ => false,
    }
}

/// The package names that the public imports at the top level of a file
/// put forward as re-exported, in the order of the imports. Wildcards and
/// groups are not looked into.
pub fn extract_reexports(nodes: &Vec<Node>) -> (r: Vec<String>)
    ensures
        texts(r@) == reexport_candidates(nodes@),
{
    let mut crates: Vec<String> = Vec::new();
    let mut i: usize = 0;
    assert(texts(crates@) =~= reexport_candidates(nodes@.take(0)));
    while i < nodes.len()
        invariant
            i <= nodes.len(),
            texts(crates@) == reexport_candidates(nodes@.take(i as int)),
        decreases nodes.len() - i,
    {
        assert(nodes@.take(i + 1).drop_last() == nodes@.take(i as int));
        assert(nodes@.take(i + 1).last() == nodes@[i as int]);
        match &nodes[i] {
            Node::Use(u) => {
                if u.top_level && is_public(&u.vis) {
                    extract_crate_from_use_tree(&u.tree, &mut crates);
                }
            },
            _ => {},
        }
        i += 1;
    }
    assert(nodes@.take(nodes.len() as int) == nodes@);
    crates
}

/// The catalog of one source file, and the package names that the file
/// puts forward as re-exported.
pub fn index_file(nodes: &Vec<Node>, relative_path: &str, crate_name: &str) -> (r: (
    CrateItems,
    Vec<String>,
))
    ensures
        r.0@ == with_nodes(CrateItemsView::empty(), nodes@, crate_name@, relative_path@),
        texts(r.1@) == reexport_candidates(nodes@),
{
    let mut visitor = ItemVisitor::new(relative_path, crate_name);
    let mut i: usize = 0;
    while i < nodes.len()
        invariant
            i <= nodes.len(),
            visitor.file_path@ == relative_path@,
            visitor.crate_name@ == crate_name@,
            visitor.items@ == with_nodes(
                CrateItemsView::empty(),
                nodes@.take(i as int),
                crate_name@,
                relative_path@,
            ),
        decreases nodes.len() - i,
    {
        assert(nodes@.take(i + 1).drop_last() == nodes@.take(i as int));
        assert(nodes@.take(i + 1).last() == nodes@[i as int]);
        visitor.visit_item(&nodes[i]);
        i += 1;
    }
    assert(nodes@.take(nodes.len() as int) == nodes@);
    let reexports = extract_reexports(nodes);
    (visitor.items, reexports)
}

/// Whether a path names a source file: whether its last component has the
/// extension `rs`, that is, ends in `.rs` after at least one character.
pub open spec fn is_source_path(path: Seq<char>) -> bool {
    &&& path.len() >= 4
    &&& path[path.len() - 4] != '/'
    &&& path[path.len() - 3] == '.'
    &&& path[path.len() - 2] == 'r'
    &&& path[path.len() - 1] == 's'
}

/// Whether the file at `path` is a source file.
pub fn is_source_file(path: &str) -> (r: bool)
    ensures
        r == is_source_path(path@),
{
    let v = to_chars(path);
    let n = v.len();
    n >= 4 && v[n - 4] != '/' && v[n - 3] == '.' && v[n - 2] == 'r' && v[n - 1] == 's'
}

/// A source file of a package: its path below the package root and, unless
/// the file could not be read or parsed, its syntax nodes.
#[derive(Debug, Clone, PartialEq, Eq)]
pub struct ParsedFile {
    pub relative_path: String,
    pub nodes: Option<Vec<Node>>,
}

/// What indexing a package yields: its catalog, and the names of the
/// packages that it re-exports.
#[derive(Debug, PartialEq, Eq)]
pub struct IndexResult {
    pub items: CrateItems,
    pub reexported_crates: Vec<String>,
}

/// The catalog of one file; a file without nodes contributes nothing.
pub open spec fn file_catalog(file: ParsedFile, package: Seq<char>) -> CrateItemsView {
    match file.nodes {
        Some(nodes) => with_nodes(CrateItemsView::empty(), nodes@, package, file.relative_path@),
        None => CrateItemsView::empty(),
    }
}

/// The re-export candidates of one file; a file without nodes has none.
pub open spec fn file_candidates(file: ParsedFile) -> Seq<Seq<char>> {
    match file.nodes {
        Some(nodes) => reexport_candidates(nodes@),
        None => Seq::empty(),
    }
}

/// The catalogs of `files`, table by table one after the other.
pub open spec fn merged_catalog(files: Seq<ParsedFile>, package: Seq<char>) -> CrateItemsView
    decreases files.len(),
{
    if files.len() == 0 {
        CrateItemsView::empty()
    } else {
        merged_catalog(files.drop_last(), package).concat(file_catalog(files.last(), package))
    }
}

/// The re-export candidates of `files`, one file after the other.
pub open spec fn merged_candidates(files: Seq<ParsedFile>) -> Seq<Seq<char>>
    decreases files.len(),
{
    if files.len() == 0 {
        Seq::empty()
    } else {
        merged_candidates(files.drop_last()) + file_candidates(files.last())
    }
}

/// The candidates that are kept as re-exports: each candidate that is
/// among the declared dependencies, once, in the order of first occurrence.
pub open spec fn retained(candidates: Seq<Seq<char>>, dependencies: Seq<Seq<char>>) -> Seq<Seq<char>>
    decreases candidates.len(),
{
    if candidates.len() == 0 {
        Seq::empty()
    } else {
        let rest = retained(candidates.drop_last(), dependencies);
        let name = candidates.last();
        if dependencies.contains(name) && !rest.contains(name) {
            rest.push(name)
        } else {
            rest
        }
    }
}

/// A name is kept as a re-export exactly when it is both put forward by a
/// public import and listed among the declared dependencies, and it is
/// kept once: a re-exported name that is no declared dependency yields no
/// edge, and one that is yields exactly one.
pub proof fn law_reexports_are_declared_dependencies(
    candidates: Seq<Seq<char>>,
    dependencies: Seq<Seq<char>>,
)
    ensures
        retained(candidates, dependencies).no_duplicates(),
        forall|name: Seq<char>|
            retained(candidates, dependencies).contains(name) <==> candidates.contains(name)
                && dependencies.contains(name),
    decreases candidates.len(),
{
    if candidates.len() > 0 {
        let rest = retained(candidates.drop_last(), dependencies);
        let last = candidates.last();
        let all = retained(candidates, dependencies);
        law_reexports_are_declared_dependencies(candidates.drop_last(), dependencies);
        assert forall|name: Seq<char>|
            all.contains(name) <==> candidates.contains(name) && dependencies.contains(
                name,
            ) by {
            if candidates.contains(name) {
                let k = choose|k: int| 0 <= k < candidates.len() && candidates[k] == name;
                if k < candidates.len() - 1 {
                    assert(candidates.drop_last()[k] == name);
                }
            }
            if candidates.drop_last().contains(name) {
                let k = choose|k: int|
                    0 <= k < candidates.drop_last().len() && candidates.drop_last()[k] == name;
                assert(candidates[k] == name);
            }
            if rest.contains(name) {
                let k = choose|k: int| 0 <= k < rest.len() && rest[k] == name;
                if dependencies.contains(last) && !rest.contains(last) {
                    assert(all[k] == name);
                }
            }
            if all.contains(name) && !rest.contains(name) {
                let k = choose|k: int| 0 <= k < all.len() && all[k] == name;
                if k < rest.len() {
                    assert(rest[k] == name);
                }
                assert(name == last);
                assert(candidates[candidates.len() - 1] == last);
            }
            if name == last && dependencies.contains(last) && !rest.contains(last) {
                assert(all[rest.len() as int] == last);
            }
        }
    }
}

/// Appends the records of `more` to those of `items`, table by table.
fn append_items(items: &mut CrateItems, more: CrateItems)
    ensures
        final(items)@ == old(items)@.concat(more@),
{
    let mut more = more;
    let ghost a = items@;
    let ghost b = more@;
    items.functions.append(&mut more.functions);
    items.structs.append(&mut more.structs);
    items.enums.append(&mut more.enums);
    items.traits.append(&mut more.traits);
    items.macros.append(&mut more.macros);
    items.type_aliases.append(&mut more.type_aliases);
    items.constants.append(&mut more.constants);
    items.impls.append(&mut more.impls);
    assert(items@.functions =~= a.functions + b.functions);
    assert(items@.structs =~= a.structs + b.structs);
    assert(items@.enums =~= a.enums + b.enums);
    assert(items@.traits =~= a.traits + b.traits);
    assert(items@.macros =~= a.macros + b.macros);
    assert(items@.type_aliases =~= a.type_aliases + b.type_aliases);
    assert(items@.constants =~= a.constants + b.constants);
    assert(items@.impls =~= a.impls + b.impls);
}

/// The candidates that are kept as re-exports.
pub fn retain_dependencies(candidates: &Vec<String>, dependencies: &Vec<String>) -> (r: Vec<String>)
    ensures
        texts(r@) == retained(texts(candidates@), texts(dependencies@)),
{
    let mut out: Vec<String> = Vec::new();
    let mut i: usize = 0;
    assert(texts(out@) =~= retained(texts(candidates@).take(0), texts(dependencies@)));
    while i < candidates.len()
        invariant
            i <= candidates.len(),
            texts(out@) == retained(texts(candidates@).take(i as int), texts(dependencies@)),
        decreases candidates.len() - i,
    {
        let ghost c = texts(candidates@);
        assert(c.take(i + 1).drop_last() == c.take(i as int));
        assert(c.take(i + 1).last() == candidates@[i as int]@);
        let name = &candidates[i];
        if contains_text(dependencies, name.as_str()) && !contains_text(&out, name.as_str()) {
            let ghost before = out@;
            out.push(name.clone());
            assert(texts(out@) =~= texts(before).push(name@));
        }
        i += 1;
    }
    assert(texts(candidates@).take(candidates.len() as int) == texts(candidates@));
    out
}

/// The catalog of a package from its source files, and the packages that it
/// re-exports: a re-export is a name that a public top-level import puts
/// forward and that `dependencies` lists. A file without nodes is passed
/// over; the others contribute in the order given.
pub fn index_files(files: &Vec<ParsedFile>, dependencies: &Vec<String>, crate_name: &str) -> (r:
    IndexResult)
    ensures
        r.items@ == merged_catalog(files@, crate_name@),
        texts(r.reexported_crates@) == retained(merged_candidates(files@), texts(dependencies@)),
{
    let mut items = CrateItems::new();
    let mut candidates: Vec<String> = Vec::new();
    let mut i: usize = 0;
    assert(texts(candidates@) =~= merged_candidates(files@.take(0)));
    while i < files.len()
        invariant
            i <= files.len(),
            items@ == merged_catalog(files@.take(i as int), crate_name@),
            texts(candidates@) == merged_candidates(files@.take(i as int)),
        decreases files.len() - i,
    {
        assert(files@.take(i + 1).drop_last() == files@.take(i as int));
        assert(files@.take(i + 1).last() == files@[i as int]);
        match &files[i].nodes {
            Some(nodes) => {
                let (file_items, mut file_reexports) = index_file(
                    nodes,
                    files[i].relative_path.as_str(),
                    crate_name,
                );
                append_items(&mut items, file_items);
                let ghost before = candidates@;
                let ghost added = file_reexports@;
                candidates.append(&mut file_reexports);
                assert(texts(candidates@) =~= texts(before) + texts(added));
            },
            None => {
                let ghost a = items@;
                assert(a.concat(CrateItemsView::empty()).functions =~= a.functions);
                assert(a.concat(CrateItemsView::empty()).structs =~= a.structs);
                assert(a.concat(CrateItemsView::empty()).enums =~= a.enums);
                assert(a.concat(CrateItemsView::empty()).traits =~= a.traits);
                assert(a.concat(CrateItemsView::empty()).macros =~= a.macros);
                assert(a.concat(CrateItemsView::empty()).type_aliases =~= a.type_aliases);
                assert(a.concat(CrateItemsView::empty()).constants =~= a.constants);
                assert(a.concat(CrateItemsView::empty()).impls =~= a.impls);
                assert(texts(candidates@) + Seq::<Seq<char>>::empty() =~= texts(candidates@));
            },
        }
        i += 1;
    }
    assert(files@.take(files.len() as int) == files@);
    let reexported_crates = retain_dependencies(&candidates, dependencies);
    IndexResult { items, reexported_crates }
}

/// The catalog of a package from its source files and its manifest, and the
/// packages that it re-exports. `manifest` is the text of the package's
/// manifest, if it has one that could be read; without one, or with one
/// that cannot be parsed, the package has no declared dependency and so
/// re-exports nothing.
pub fn index_crate(files: &Vec<ParsedFile>, manifest: Option<&str>, crate_name: &str) -> (r:
    IndexResult)
    ensures
        r.items@ == merged_catalog(files@, crate_name@),
        texts(r.reexported_crates@) == retained(
            merged_candidates(files@),
            declared_dependencies(
                match manifest {
                    Some(m) => Some(m@),
                    None => None,
                },
            ),
        ),
{
    let dependencies = parse_cargo_dependencies(manifest);
    index_files(files, &dependencies, crate_name)
}

} // verus!
