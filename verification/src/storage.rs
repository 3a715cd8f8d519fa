//! The records of the catalog and the places where the catalog lives on disk.
//!
//! Every record has a view that holds its texts as sequences of characters;
//! contracts in the other modules are stated over these views.

use crate::text::{concat2, concat3, to_chars};
use vstd::prelude::*;
use vstd::string::*;

verus! {

/// The text inside an optional string.
pub open spec fn opt_text(o: Option<String>) -> Option<Seq<char>> {
    match o {
        Some(s) => Some(s@),
        None => None,
    }
}

/// The views of a sequence of records.
pub open spec fn row_views<T: View>(rows: Seq<T>) -> Seq<T::V> {
    rows.map_values(|t: T| t@)
}

/// A record that can be copied value for value.
pub trait Record: View + Sized {
    /// A copy with the same view.
    fn duplicate(&self) -> (r: Self)
        ensures
            r@ == self@,
    ;
}

/// A record of one declaration kind: it carries an identifier and has its
/// own table in a [`CrateItems`].
pub trait Declaration: Record {
    /// The identifier of a record of this kind.
    spec fn id_of(v: Self::V) -> Seq<char>;

    /// The table of this kind within a package's catalog.
    spec fn rows_of(items: CrateItemsView) -> Seq<Self::V>;

    /// The identifier of this record.
    fn ident(&self) -> (r: &String)
        ensures
            r@ == Self::id_of(self@),
    ;

    /// The table of this kind within `items`.
    fn rows(items: &CrateItems) -> (r: &Vec<Self>)
        ensures
            row_views(r@) == Self::rows_of(items@),
    ;
}

/// A copy of an optional string.
pub fn clone_opt_text(o: &Option<String>) -> (r: Option<String>)
    ensures
        opt_text(r) == opt_text(*o),
{
    match o {
        Some(s) => Some(s.clone()),
        None => None,
    }
}

/// A copy of a list of strings.
pub fn clone_texts(v: &Vec<String>) -> (r: Vec<String>)
    ensures
        crate::text::texts(r@) == crate::text::texts(v@),
{
    let mut out: Vec<String> = Vec::new();
    let mut i: usize = 0;
    while i < v.len()
        invariant
            i <= v.len(),
            crate::text::texts(out@) == crate::text::texts(v@).take(i as int),
        decreases v.len() - i,
    {
        let ghost before = out@;
        out.push(v[i].clone());
        assert(crate::text::texts(out@) =~= crate::text::texts(before).push(v@[i as int]@));
        assert(crate::text::texts(out@) =~= crate::text::texts(v@).take(i + 1));
        i += 1;
    }
    assert(crate::text::texts(v@).take(v.len() as int) == crate::text::texts(v@));
    out
}

/// A copy of a list of records.
pub fn clone_rows<T: Record>(rows: &Vec<T>) -> (r: Vec<T>)
    ensures
        row_views(r@) == row_views(rows@),
{
    let mut out: Vec<T> = Vec::new();
    let mut i: usize = 0;
    while i < rows.len()
        invariant
            i <= rows.len(),
            row_views(out@) == row_views(rows@).take(i as int),
        decreases rows.len() - i,
    {
        let ghost before = out@;
        out.push(rows[i].duplicate());
        assert(row_views(out@) =~= row_views(before).push(rows@[i as int]@));
        assert(row_views(out@) =~= row_views(rows@).take(i + 1));
        i += 1;
    }
    assert(row_views(rows@).take(rows.len() as int) == row_views(rows@));
    out
}

/// A function, a method of an implementation, or a method of a trait.
#[derive(Debug, PartialEq, Eq)]
pub struct FunctionInfo {
    pub id: String,
    pub name: String,
    pub file: String,
    pub line: usize,
    pub end_line: Option<usize>,
    pub signature: String,
    pub docs: Option<String>,
}

/// What a [`FunctionInfo`] holds, as plain values.
pub struct FunctionInfoView {
    pub id: Seq<char>,
    pub name: Seq<char>,
    pub file: Seq<char>,
    pub line: usize,
    pub end_line: Option<usize>,
    pub signature: Seq<char>,
    pub docs: Option<Seq<char>>,
}

impl View for FunctionInfo {
    type V = FunctionInfoView;

    open spec fn view(&self) -> FunctionInfoView {
        FunctionInfoView {
            id: self.id@,
            name: self.name@,
            file: self.file@,
            line: self.line,
            end_line: self.end_line,
            signature: self.signature@,
            docs: opt_text(self.docs),
        }
    }
}

impl Record for FunctionInfo {
    fn duplicate(&self) -> (r: Self) {
        FunctionInfo {
            id: self.id.clone(),
            name: self.name.clone(),
            file: self.file.clone(),
            line: self.line,
            end_line: self.end_line,
            signature: self.signature.clone(),
            docs: clone_opt_text(&self.docs),
        }
    }
}

impl Clone for FunctionInfo {
    fn clone(&self) -> (r: Self)
        ensures
            r@ == self@,
    {
        self.duplicate()
    }
}

impl Declaration for FunctionInfo {
    open spec fn id_of(v: FunctionInfoView) -> Seq<char> {
        v.id
    }

    open spec fn rows_of(items: CrateItemsView) -> Seq<FunctionInfoView> {
        items.functions
    }

    fn ident(&self) -> (r: &String) {
        &self.id
    }

    fn rows(items: &CrateItems) -> (r: &Vec<Self>) {
        &items.functions
    }
}

/// One field of a struct.
#[derive(Debug, PartialEq, Eq)]
pub struct FieldInfo {
    pub name: String,
    pub type_str: String,
    pub visibility: String,
    pub docs: Option<String>,
}

/// What a [`FieldInfo`] holds, as plain values.
pub struct FieldInfoView {
    pub name: Seq<char>,
    pub type_str: Seq<char>,
    pub visibility: Seq<char>,
    pub docs: Option<Seq<char>>,
}

impl View for FieldInfo {
    type V = FieldInfoView;

    open spec fn view(&self) -> FieldInfoView {
        FieldInfoView {
            name: self.name@,
            type_str: self.type_str@,
            visibility: self.visibility@,
            docs: opt_text(self.docs),
        }
    }
}

impl Record for FieldInfo {
    fn duplicate(&self) -> (r: Self) {
        FieldInfo {
            name: self.name.clone(),
            type_str: self.type_str.clone(),
            visibility: self.visibility.clone(),
            docs: clone_opt_text(&self.docs),
        }
    }
}

impl Clone for FieldInfo {
    fn clone(&self) -> (r: Self)
        ensures
            r@ == self@,
    {
        self.duplicate()
    }
}

/// A struct with its fields in declaration order.
#[derive(Debug, PartialEq, Eq)]
pub struct StructInfo {
    pub id: String,
    pub name: String,
    pub file: String,
    pub line: usize,
    pub end_line: Option<usize>,
    pub visibility: String,
    pub fields: Vec<FieldInfo>,
    pub docs: Option<String>,
}

/// What a [`StructInfo`] holds, as plain values.
pub struct StructInfoView {
    pub id: Seq<char>,
    pub name: Seq<char>,
    pub file: Seq<char>,
    pub line: usize,
    pub end_line: Option<usize>,
    pub visibility: Seq<char>,
    pub fields: Seq<FieldInfoView>,
    pub docs: Option<Seq<char>>,
}

impl View for StructInfo {
    type V = StructInfoView;

    open spec fn view(&self) -> StructInfoView {
        StructInfoView {
            id: self.id@,
            name: self.name@,
            file: self.file@,
            line: self.line,
            end_line: self.end_line,
            visibility: self.visibility@,
            fields: row_views(self.fields@),
            docs: opt_text(self.docs),
        }
    }
}

impl Record for StructInfo {
    fn duplicate(&self) -> (r: Self) {
        StructInfo {
            id: self.id.clone(),
            name: self.name.clone(),
            file: self.file.clone(),
            line: self.line,
            end_line: self.end_line,
            visibility: self.visibility.clone(),
            fields: clone_rows(&self.fields),
            docs: clone_opt_text(&self.docs),
        }
    }
}

impl Clone for StructInfo {
    fn clone(&self) -> (r: Self)
        ensures
            r@ == self@,
    {
        self.duplicate()
    }
}

impl Declaration for StructInfo {
    open spec fn id_of(v: StructInfoView) -> Seq<char> {
        v.id
    }

    open spec fn rows_of(items: CrateItemsView) -> Seq<StructInfoView> {
        items.structs
    }

    fn ident(&self) -> (r: &String) {
        &self.id
    }

    fn rows(items: &CrateItems) -> (r: &Vec<Self>) {
        &items.structs
    }
}

/// One variant of an enum; `kind` is `unit`, `tuple` or `struct`.
#[derive(Debug, PartialEq, Eq)]
pub struct VariantInfo {
    pub name: String,
    pub kind: String,
    pub fields: Option<String>,
    pub docs: Option<String>,
}

/// What a [`VariantInfo`] holds, as plain values.
pub struct VariantInfoView {
    pub name: Seq<char>,
    pub kind: Seq<char>,
    pub fields: Option<Seq<char>>,
    pub docs: Option<Seq<char>>,
}

impl View for VariantInfo {
    type V = VariantInfoView;

    open spec fn view(&self) -> VariantInfoView {
        VariantInfoView {
            name: self.name@,
            kind: self.kind@,
            fields: opt_text(self.fields),
            docs: opt_text(self.docs),
        }
    }
}

impl Record for VariantInfo {
    fn duplicate(&self) -> (r: Self) {
        VariantInfo {
            name: self.name.clone(),
            kind: self.kind.clone(),
            fields: clone_opt_text(&self.fields),
            docs: clone_opt_text(&self.docs),
        }
    }
}

impl Clone for VariantInfo {
    fn clone(&self) -> (r: Self)
        ensures
            r@ == self@,
    {
        self.duplicate()
    }
}

/// An enum with its variants in declaration order.
#[derive(Debug, PartialEq, Eq)]
pub struct EnumInfo {
    pub id: String,
    pub name: String,
    pub file: String,
    pub line: usize,
    pub end_line: Option<usize>,
    pub visibility: String,
    pub variants: Vec<VariantInfo>,
    pub docs: Option<String>,
}

/// What a [`EnumInfo`] holds, as plain values.
pub struct EnumInfoView {
    pub id: Seq<char>,
    pub name: Seq<char>,
    pub file: Seq<char>,
    pub line: usize,
    pub end_line: Option<usize>,
    pub visibility: Seq<char>,
    pub variants: Seq<VariantInfoView>,
    pub docs: Option<Seq<char>>,
}

impl View for EnumInfo {
    type V = EnumInfoView;

    open spec fn view(&self) -> EnumInfoView {
        EnumInfoView {
            id: self.id@,
            name: self.name@,
            file: self.file@,
            line: self.line,
            end_line: self.end_line,
            visibility: self.visibility@,
            variants: row_views(self.variants@),
            docs: opt_text(self.docs),
        }
    }
}

impl Record for EnumInfo {
    fn duplicate(&self) -> (r: Self) {
        EnumInfo {
            id: self.id.clone(),
            name: self.name.clone(),
            file: self.file.clone(),
            line: self.line,
            end_line: self.end_line,
            visibility: self.visibility.clone(),
            variants: clone_rows(&self.variants),
            docs: clone_opt_text(&self.docs),
        }
    }
}

impl Clone for EnumInfo {
    fn clone(&self) -> (r: Self)
        ensures
            r@ == self@,
    {
        self.duplicate()
    }
}

impl Declaration for EnumInfo {
    open spec fn id_of(v: EnumInfoView) -> Seq<char> {
        v.id
    }

    open spec fn rows_of(items: CrateItemsView) -> Seq<EnumInfoView> {
        items.enums
    }

    fn ident(&self) -> (r: &String) {
        &self.id
    }

    fn rows(items: &CrateItems) -> (r: &Vec<Self>) {
        &items.enums
    }
}

/// A trait.
#[derive(Debug, PartialEq, Eq)]
pub struct TraitInfo {
    pub id: String,
    pub name: String,
    pub file: String,
    pub line: usize,
    pub end_line: Option<usize>,
    pub visibility: String,
    pub docs: Option<String>,
}

/// What a [`TraitInfo`] holds, as plain values.
pub struct TraitInfoView {
    pub id: Seq<char>,
    pub name: Seq<char>,
    pub file: Seq<char>,
    pub line: usize,
    pub end_line: Option<usize>,
    pub visibility: Seq<char>,
    pub docs: Option<Seq<char>>,
}

impl View for TraitInfo {
    type V = TraitInfoView;

    open spec fn view(&self) -> TraitInfoView {
        TraitInfoView {
            id: self.id@,
            name: self.name@,
            file: self.file@,
            line: self.line,
            end_line: self.end_line,
            visibility: self.visibility@,
            docs: opt_text(self.docs),
        }
    }
}

impl Record for TraitInfo {
    fn duplicate(&self) -> (r: Self) {
        TraitInfo {
            id: self.id.clone(),
            name: self.name.clone(),
            file: self.file.clone(),
            line: self.line,
            end_line: self.end_line,
            visibility: self.visibility.clone(),
            docs: clone_opt_text(&self.docs),
        }
    }
}

impl Clone for TraitInfo {
    fn clone(&self) -> (r: Self)
        ensures
            r@ == self@,
    {
        self.duplicate()
    }
}

impl Declaration for TraitInfo {
    open spec fn id_of(v: TraitInfoView) -> Seq<char> {
        v.id
    }

    open spec fn rows_of(items: CrateItemsView) -> Seq<TraitInfoView> {
        items.traits
    }

    fn ident(&self) -> (r: &String) {
        &self.id
    }

    fn rows(items: &CrateItems) -> (r: &Vec<Self>) {
        &items.traits
    }
}

/// A macro; `kind` names how it is defined.
#[derive(Debug, PartialEq, Eq)]
pub struct MacroInfo {
    pub id: String,
    pub name: String,
    pub file: String,
    pub line: usize,
    pub end_line: Option<usize>,
    pub kind: String,
    pub docs: Option<String>,
}

/// What a [`MacroInfo`] holds, as plain values.
pub struct MacroInfoView {
    pub id: Seq<char>,
    pub name: Seq<char>,
    pub file: Seq<char>,
    pub line: usize,
    pub end_line: Option<usize>,
    pub kind: Seq<char>,
    pub docs: Option<Seq<char>>,
}

impl View for MacroInfo {
    type V = MacroInfoView;

    open spec fn view(&self) -> MacroInfoView {
        MacroInfoView {
            id: self.id@,
            name: self.name@,
            file: self.file@,
            line: self.line,
            end_line: self.end_line,
            kind: self.kind@,
            docs: opt_text(self.docs),
        }
    }
}

impl Record for MacroInfo {
    fn duplicate(&self) -> (r: Self) {
        MacroInfo {
            id: self.id.clone(),
            name: self.name.clone(),
            file: self.file.clone(),
            line: self.line,
            end_line: self.end_line,
            kind: self.kind.clone(),
            docs: clone_opt_text(&self.docs),
        }
    }
}

impl Clone for MacroInfo {
    fn clone(&self) -> (r: Self)
        ensures
            r@ == self@,
    {
        self.duplicate()
    }
}

impl Declaration for MacroInfo {
    open spec fn id_of(v: MacroInfoView) -> Seq<char> {
        v.id
    }

    open spec fn rows_of(items: CrateItemsView) -> Seq<MacroInfoView> {
        items.macros
    }

    fn ident(&self) -> (r: &String) {
        &self.id
    }

    fn rows(items: &CrateItems) -> (r: &Vec<Self>) {
        &items.macros
    }
}

/// A type alias with the text of the aliased type.
#[derive(Debug, PartialEq, Eq)]
pub struct TypeAliasInfo {
    pub id: String,
    pub name: String,
    pub file: String,
    pub line: usize,
    pub type_str: String,
    pub visibility: String,
    pub docs: Option<String>,
}

/// What a [`TypeAliasInfo`] holds, as plain values.
pub struct TypeAliasInfoView {
    pub id: Seq<char>,
    pub name: Seq<char>,
    pub file: Seq<char>,
    pub line: usize,
    pub type_str: Seq<char>,
    pub visibility: Seq<char>,
    pub docs: Option<Seq<char>>,
}

impl View for TypeAliasInfo {
    type V = TypeAliasInfoView;

    open spec fn view(&self) -> TypeAliasInfoView {
        TypeAliasInfoView {
            id: self.id@,
            name: self.name@,
            file: self.file@,
            line: self.line,
            type_str: self.type_str@,
            visibility: self.visibility@,
            docs: opt_text(self.docs),
        }
    }
}

impl Record for TypeAliasInfo {
    fn duplicate(&self) -> (r: Self) {
        TypeAliasInfo {
            id: self.id.clone(),
            name: self.name.clone(),
            file: self.file.clone(),
            line: self.line,
            type_str: self.type_str.clone(),
            visibility: self.visibility.clone(),
            docs: clone_opt_text(&self.docs),
        }
    }
}

impl Clone for TypeAliasInfo {
    fn clone(&self) -> (r: Self)
        ensures
            r@ == self@,
    {
        self.duplicate()
    }
}

impl Declaration for TypeAliasInfo {
    open spec fn id_of(v: TypeAliasInfoView) -> Seq<char> {
        v.id
    }

    open spec fn rows_of(items: CrateItemsView) -> Seq<TypeAliasInfoView> {
        items.type_aliases
    }

    fn ident(&self) -> (r: &String) {
        &self.id
    }

    fn rows(items: &CrateItems) -> (r: &Vec<Self>) {
        &items.type_aliases
    }
}

/// A constant or a static; `kind` is `const` or `static`.
#[derive(Debug, PartialEq, Eq)]
pub struct ConstantInfo {
    pub id: String,
    pub name: String,
    pub file: String,
    pub line: usize,
    pub kind: String,
    pub type_str: String,
    pub visibility: String,
    pub docs: Option<String>,
}

/// What a [`ConstantInfo`] holds, as plain values.
pub struct ConstantInfoView {
    pub id: Seq<char>,
    pub name: Seq<char>,
    pub file: Seq<char>,
    pub line: usize,
    pub kind: Seq<char>,
    pub type_str: Seq<char>,
    pub visibility: Seq<char>,
    pub docs: Option<Seq<char>>,
}

impl View for ConstantInfo {
    type V = ConstantInfoView;

    open spec fn view(&self) -> ConstantInfoView {
        ConstantInfoView {
            id: self.id@,
            name: self.name@,
            file: self.file@,
            line: self.line,
            kind: self.kind@,
            type_str: self.type_str@,
            visibility: self.visibility@,
            docs: opt_text(self.docs),
        }
    }
}

impl Record for ConstantInfo {
    fn duplicate(&self) -> (r: Self) {
        ConstantInfo {
            id: self.id.clone(),
            name: self.name.clone(),
            file: self.file.clone(),
            line: self.line,
            kind: self.kind.clone(),
            type_str: self.type_str.clone(),
            visibility: self.visibility.clone(),
            docs: clone_opt_text(&self.docs),
        }
    }
}

impl Clone for ConstantInfo {
    fn clone(&self) -> (r: Self)
        ensures
            r@ == self@,
    {
        self.duplicate()
    }
}

impl Declaration for ConstantInfo {
    open spec fn id_of(v: ConstantInfoView) -> Seq<char> {
        v.id
    }

    open spec fn rows_of(items: CrateItemsView) -> Seq<ConstantInfoView> {
        items.constants
    }

    fn ident(&self) -> (r: &String) {
        &self.id
    }

    fn rows(items: &CrateItems) -> (r: &Vec<Self>) {
        &items.constants
    }
}

/// An implementation block, known by its self type and, if any, its trait.
#[derive(Debug, PartialEq, Eq)]
pub struct ImplInfo {
    pub id: String,
    pub file: String,
    pub line: usize,
    pub end_line: Option<usize>,
    pub self_type: String,
    pub trait_name: Option<String>,
}

/// What a [`ImplInfo`] holds, as plain values.
pub struct ImplInfoView {
    pub id: Seq<char>,
    pub file: Seq<char>,
    pub line: usize,
    pub end_line: Option<usize>,
    pub self_type: Seq<char>,
    pub trait_name: Option<Seq<char>>,
}

impl View for ImplInfo {
    type V = ImplInfoView;

    open spec fn view(&self) -> ImplInfoView {
        ImplInfoView {
            id: self.id@,
            file: self.file@,
            line: self.line,
            end_line: self.end_line,
            self_type: self.self_type@,
            trait_name: opt_text(self.trait_name),
        }
    }
}

impl Record for ImplInfo {
    fn duplicate(&self) -> (r: Self) {
        ImplInfo {
            id: self.id.clone(),
            file: self.file.clone(),
            line: self.line,
            end_line: self.end_line,
            self_type: self.self_type.clone(),
            trait_name: clone_opt_text(&self.trait_name),
        }
    }
}

impl Clone for ImplInfo {
    fn clone(&self) -> (r: Self)
        ensures
            r@ == self@,
    {
        self.duplicate()
    }
}

impl Declaration for ImplInfo {
    open spec fn id_of(v: ImplInfoView) -> Seq<char> {
        v.id
    }

    open spec fn rows_of(items: CrateItemsView) -> Seq<ImplInfoView> {
        items.impls
    }

    fn ident(&self) -> (r: &String) {
        &self.id
    }

    fn rows(items: &CrateItems) -> (r: &Vec<Self>) {
        &items.impls
    }
}

/// Everything extracted from one package: one table per declaration kind,
/// each in the order in which the declarations were found.
#[derive(Debug, PartialEq, Eq)]
pub struct CrateItems {
    pub functions: Vec<FunctionInfo>,
    pub structs: Vec<StructInfo>,
    pub enums: Vec<EnumInfo>,
    pub traits: Vec<TraitInfo>,
    pub macros: Vec<MacroInfo>,
    pub type_aliases: Vec<TypeAliasInfo>,
    pub constants: Vec<ConstantInfo>,
    pub impls: Vec<ImplInfo>,
}

/// What a [`CrateItems`] holds, as plain values.
pub struct CrateItemsView {
    pub functions: Seq<FunctionInfoView>,
    pub structs: Seq<StructInfoView>,
    pub enums: Seq<EnumInfoView>,
    pub traits: Seq<TraitInfoView>,
    pub macros: Seq<MacroInfoView>,
    pub type_aliases: Seq<TypeAliasInfoView>,
    pub constants: Seq<ConstantInfoView>,
    pub impls: Seq<ImplInfoView>,
}

impl CrateItemsView {
    /// The catalog without any record.
    pub open spec fn empty() -> CrateItemsView {
        CrateItemsView {
            functions: Seq::empty(),
            structs: Seq::empty(),
            enums: Seq::empty(),
            traits: Seq::empty(),
            macros: Seq::empty(),
            type_aliases: Seq::empty(),
            constants: Seq::empty(),
            impls: Seq::empty(),
        }
    }

    /// This catalog followed, table by table, by `other`.
    pub open spec fn concat(self, other: CrateItemsView) -> CrateItemsView {
        CrateItemsView {
            functions: self.functions + other.functions,
            structs: self.structs + other.structs,
            enums: self.enums + other.enums,
            traits: self.traits + other.traits,
            macros: self.macros + other.macros,
            type_aliases: self.type_aliases + other.type_aliases,
            constants: self.constants + other.constants,
            impls: self.impls + other.impls,
        }
    }
}

impl View for CrateItems {
    type V = CrateItemsView;

    open spec fn view(&self) -> CrateItemsView {
        CrateItemsView {
            functions: row_views(self.functions@),
            structs: row_views(self.structs@),
            enums: row_views(self.enums@),
            traits: row_views(self.traits@),
            macros: row_views(self.macros@),
            type_aliases: row_views(self.type_aliases@),
            constants: row_views(self.constants@),
            impls: row_views(self.impls@),
        }
    }
}

impl Record for CrateItems {
    fn duplicate(&self) -> (r: Self) {
        CrateItems {
            functions: clone_rows(&self.functions),
            structs: clone_rows(&self.structs),
            enums: clone_rows(&self.enums),
            traits: clone_rows(&self.traits),
            macros: clone_rows(&self.macros),
            type_aliases: clone_rows(&self.type_aliases),
            constants: clone_rows(&self.constants),
            impls: clone_rows(&self.impls),
        }
    }
}

impl Clone for CrateItems {
    fn clone(&self) -> (r: Self)
        ensures
            r@ == self@,
    {
        self.duplicate()
    }
}

impl Default for CrateItems {
    fn default() -> (r: Self)
        ensures
            r@ == CrateItemsView::empty(),
    {
        CrateItems::new()
    }
}

impl CrateItems {
    /// A catalog without any record.
    pub fn new() -> (r: Self)
        ensures
            r@ == CrateItemsView::empty(),
    {
        let r = CrateItems {
            functions: Vec::new(),
            structs: Vec::new(),
            enums: Vec::new(),
            traits: Vec::new(),
            macros: Vec::new(),
            type_aliases: Vec::new(),
            constants: Vec::new(),
            impls: Vec::new(),
        };
        assert(r@.functions =~= Seq::empty());
        assert(r@.structs =~= Seq::empty());
        assert(r@.enums =~= Seq::empty());
        assert(r@.traits =~= Seq::empty());
        assert(r@.macros =~= Seq::empty());
        assert(r@.type_aliases =~= Seq::empty());
        assert(r@.constants =~= Seq::empty());
        assert(r@.impls =~= Seq::empty());
        r
    }
}

/// The directory under the home directory that holds the index.
pub const INDEX_DIR: &'static str = ".crate-indexer";

/// The file inside the index directory that holds the catalog.
pub const DB_FILE: &'static str = "index.db";

/// `rel` resolved against the directory `base`: an absolute `rel` stands for
/// itself; otherwise it follows `base`, after exactly one `/` unless `base`
/// is empty or already ends in one.
pub open spec fn join_path(base: Seq<char>, rel: Seq<char>) -> Seq<char> {
    if rel.len() > 0 && rel[0] == '/' {
        rel
    } else if base.len() == 0 || base.last() == '/' {
        base + rel
    } else {
        base + seq!['/'] + rel
    }
}

/// The index directory for a home directory; without one, the index
/// directory lies in the current directory.
pub open spec fn index_dir_for(home: Option<Seq<char>>) -> Seq<char> {
    join_path(
        match home {
            Some(h) => h,
            None => "."@,
        },
        INDEX_DIR@,
    )
}

/// The catalog file for a home directory.
pub open spec fn db_path_for(home: Option<Seq<char>>) -> Seq<char> {
    join_path(index_dir_for(home), DB_FILE@)
}

/// The directory of unpacked packages for a home directory.
pub open spec fn crates_dir_for(home: Option<Seq<char>>) -> Seq<char> {
    join_path(index_dir_for(home), "crates"@)
}

/// The package key of a name and a version: both, with a hyphen between.
pub open spec fn package_key(name: Seq<char>, version: Seq<char>) -> Seq<char> {
    name + seq!['-'] + version
}

/// The directory of one unpacked package for a home directory.
pub open spec fn crate_path_for(home: Option<Seq<char>>, name: Seq<char>, version: Seq<char>) -> Seq<
    char,
> {
    join_path(crates_dir_for(home), package_key(name, version))
}

/// `dirs::home_dir`: the current user's home directory, if the platform
/// knows one. The answer depends on the environment, so nothing is claimed
/// of it. The path is handed on as text; where it is not valid UTF-8, the
/// offending bytes come out as replacement characters.
#[verifier::external_body]
fn home_dir() -> (r: Option<String>) {
    dirs::home_dir().map(|p| p.to_string_lossy().into_owned())
}

/// Resolves `rel` against the directory `base`.
pub fn join_paths(base: &str, rel: &str) -> (r: String)
    ensures
        r@ == join_path(base@, rel@),
{
    let b = to_chars(base);
    let l = to_chars(rel);
    if l.len() > 0 && l[0] == '/' {
        String::from_str(rel)
    } else if b.len() == 0 || b[b.len() - 1] == '/' {
        concat2(base, rel)
    } else {
        proof {
            reveal_strlit("/");
            assert("/"@ == seq!['/']);
        }
        concat3(base, "/", rel)
    }
}

/// The package key of `name` at `version`.
pub fn make_key(name: &str, version: &str) -> (r: String)
    ensures
        r@ == package_key(name@, version@),
{
    proof {
        reveal_strlit("-");
        assert("-"@ == seq!['-']);
    }
    concat3(name, "-", version)
}

/// The index directory for the home directory `home`.
pub fn index_dir_in(home: Option<&str>) -> (r: String)
    ensures
        r@ == index_dir_for(
            match home {
                Some(h) => Some(h@),
                None => None,
            },
        ),
{
    match home {
        Some(h) => join_paths(h, INDEX_DIR),
        None => join_paths(".", INDEX_DIR),
    }
}

/// The index directory of the current user.
pub fn index_dir() -> (r: String)
    ensures
        exists|home: Option<Seq<char>>| r@ == index_dir_for(home),
{
    let home = home_dir();
    match home {
        Some(h) => {
            let r = index_dir_in(Some(h.as_str()));
            assert(r@ == index_dir_for(Some(h@)));
            r
        },
        None => {
            let r = index_dir_in(None);
            assert(r@ == index_dir_for(None));
            r
        },
    }
}

/// The catalog file inside the index directory `index`.
pub fn db_path_in(index: &str) -> (r: String)
    ensures
        r@ == join_path(index@, DB_FILE@),
{
    join_paths(index, DB_FILE)
}

/// The directory of unpacked packages inside the index directory `index`.
pub fn crates_dir_in(index: &str) -> (r: String)
    ensures
        r@ == join_path(index@, "crates"@),
{
    join_paths(index, "crates")
}

/// The directory of `name` at `version` inside the packages directory `crates`.
pub fn crate_path_in(crates: &str, name: &str, version: &str) -> (r: String)
    ensures
        r@ == join_path(crates@, package_key(name@, version@)),
{
    let key = make_key(name, version);
    join_paths(crates, key.as_str())
}

/// The catalog file of the current user.
pub fn db_path() -> (r: String)
    ensures
        exists|home: Option<Seq<char>>| r@ == db_path_for(home),
{
    let dir = index_dir();
    let ghost home = choose|home: Option<Seq<char>>| dir@ == index_dir_for(home);
    let r = db_path_in(dir.as_str());
    assert(r@ == db_path_for(home));
    r
}

/// The directory of unpacked packages of the current user.
pub fn crates_dir() -> (r: String)
    ensures
        exists|home: Option<Seq<char>>| r@ == crates_dir_for(home),
{
    let dir = index_dir();
    let ghost home = choose|home: Option<Seq<char>>| dir@ == index_dir_for(home);
    let r = crates_dir_in(dir.as_str());
    assert(r@ == crates_dir_for(home));
    r
}

/// The directory that holds, or will hold, the unpacked sources of `name` at
/// `version` for the current user.
pub fn crate_path(name: &str, version: &str) -> (r: String)
    ensures
        exists|home: Option<Seq<char>>| r@ == crate_path_for(home, name@, version@),
{
    let dir = crates_dir();
    let ghost home = choose|home: Option<Seq<char>>| dir@ == crates_dir_for(home);
    let r = crate_path_in(dir.as_str(), name, version);
    assert(r@ == crate_path_for(home, name@, version@));
    r
}

} // verus!
