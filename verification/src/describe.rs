//! One line of text for each declaration, for searching by meaning.
//!
//! The text of a declaration says what it is, in words that a reader would
//! use: its signature or its name, what it is made of, and its
//! documentation.

use crate::database::{rows_for, Database, PackageView};
use crate::storage::{
    row_views, ConstantInfo, ConstantInfoView, Declaration, EnumInfo, EnumInfoView,
    FieldInfoView, FunctionInfo, FunctionInfoView, MacroInfo, MacroInfoView, StructInfo,
    StructInfoView, TraitInfo, TraitInfoView, TypeAliasInfo, TypeAliasInfoView, VariantInfoView,
};
use crate::text::{join, join_strings, texts};
use vstd::prelude::*;
use vstd::string::*;

verus! {

/// A declaration to search by meaning: its identifier, its kind in a word,
/// and its text.
#[derive(Debug, PartialEq, Eq)]
pub struct Described {
    pub id: String,
    pub item_type: String,
    pub text: String,
}

/// What a [`Described`] holds, as plain values.
pub struct DescribedView {
    pub id: Seq<char>,
    pub item_type: Seq<char>,
    pub text: Seq<char>,
}

impl View for Described {
    type V = DescribedView;

    open spec fn view(&self) -> DescribedView {
        DescribedView { id: self.id@, item_type: self.item_type@, text: self.text@ }
    }
}

/// The documentation as the end of a text: a full stop, a space and the
/// documentation; nothing without documentation.
pub open spec fn docs_suffix(docs: Option<Seq<char>>) -> Seq<char> {
    match docs {
        Some(d) => ". "@ + d,
        None => Seq::empty(),
    }
}

/// The members of a struct or an enum as part of a text: the lead-in and
/// the names with commas between; nothing without members.
pub open spec fn members_text(lead: Seq<char>, names: Seq<Seq<char>>) -> Seq<char> {
    if names.len() == 0 {
        Seq::empty()
    } else {
        lead + join(names, ", "@)
    }
}

/// The text of a function: its signature and its documentation.
pub open spec fn function_text(f: FunctionInfoView) -> Seq<char> {
    f.signature + docs_suffix(f.docs)
}

/// The text of a struct: its name, the names of its fields and its
/// documentation.
pub open spec fn struct_text(s: StructInfoView) -> Seq<char> {
    "struct "@ + s.name + members_text(
        " with fields: "@,
        s.fields.map_values(|f: FieldInfoView| f.name),
    ) + docs_suffix(s.docs)
}

/// The text of an enum: its name, the names of its variants and its
/// documentation.
pub open spec fn enum_text(e: EnumInfoView) -> Seq<char> {
    "enum "@ + e.name + members_text(
        " with variants: "@,
        e.variants.map_values(|v: VariantInfoView| v.name),
    ) + docs_suffix(e.docs)
}

/// The text of a trait: its name and its documentation.
pub open spec fn trait_text(t: TraitInfoView) -> Seq<char> {
    "trait "@ + t.name + docs_suffix(t.docs)
}

/// The text of a macro: its name with an exclamation mark, and its
/// documentation.
pub open spec fn macro_text(m: MacroInfoView) -> Seq<char> {
    "macro "@ + m.name + "!"@ + docs_suffix(m.docs)
}

/// The text of a type alias: its name, the aliased type and its
/// documentation.
pub open spec fn type_alias_text(t: TypeAliasInfoView) -> Seq<char> {
    "type "@ + t.name + " = "@ + t.type_str + docs_suffix(t.docs)
}

/// The text of a constant: its kind, its name, its type and its
/// documentation.
pub open spec fn constant_text(c: ConstantInfoView) -> Seq<char> {
    c.kind + " "@ + c.name + ": "@ + c.type_str + docs_suffix(c.docs)
}

/// A declaration kind that is searched by meaning.
pub trait Describe: Declaration {
    /// The kind in a word.
    spec fn tag() -> Seq<char>;

    /// The text of a declaration of this kind.
    spec fn description(v: Self::V) -> Seq<char>;

    /// The kind in a word.
    fn type_tag() -> (r: String)
        ensures
            r@ == Self::tag(),
    ;

    /// The text of this declaration.
    fn describe(&self) -> (r: String)
        ensures
            r@ == Self::description(self@),
    ;
}

/// Appends the documentation to a text.
fn push_docs(text: &mut String, docs: &Option<String>)
    ensures
        final(text)@ == old(text)@ + docs_suffix(crate::storage::opt_text(*docs)),
{
    match docs {
        Some(d) => {
            text.append(". ");
            text.append(d.as_str());
            assert(final(text)@ =~= old(text)@ + (". "@ + d@));
        },
        None => {
            assert(old(text)@ + Seq::<char>::empty() =~= old(text)@);
        },
    }
}

/// Appends the lead-in and the names to a text, where there are names.
fn push_members(text: &mut String, lead: &str, names: &Vec<String>)
    ensures
        final(text)@ == old(text)@ + members_text(lead@, texts(names@)),
{
    if names.len() > 0 {
        let joined = join_strings(names, ", ");
        text.append(lead);
        text.append(joined.as_str());
        assert(final(text)@ =~= old(text)@ + (lead@ + join(texts(names@), ", "@)));
    } else {
        assert(old(text)@ + Seq::<char>::empty() =~= old(text)@);
    }
}

/// The text of a function.
pub fn format_function_for_embedding(func: &FunctionInfo) -> (r: String)
    ensures
        r@ == function_text(func@),
{
    let mut text = func.signature.clone();
    push_docs(&mut text, &func.docs);
    text
}

/// The text of a struct.
pub fn format_struct_for_embedding(s: &StructInfo) -> (r: String)
    ensures
        r@ == struct_text(s@),
{
    let mut names: Vec<String> = Vec::new();
    let mut i: usize = 0;
    while i < s.fields.len()
        invariant
            i <= s.fields.len(),
            texts(names@) == s@.fields.map_values(|f: FieldInfoView| f.name).take(i as int),
        decreases s.fields.len() - i,
    {
        let ghost before = names@;
        names.push(s.fields[i].name.clone());
        assert(texts(names@) =~= texts(before).push(s.fields@[i as int].name@));
        assert(texts(names@) =~= s@.fields.map_values(|f: FieldInfoView| f.name).take(i + 1));
        i += 1;
    }
    assert(s@.fields.map_values(|f: FieldInfoView| f.name).take(s.fields.len() as int)
        == s@.fields.map_values(|f: FieldInfoView| f.name));
    let mut text = String::from_str("struct ");
    text.append(s.name.as_str());
    push_members(&mut text, " with fields: ", &names);
    push_docs(&mut text, &s.docs);
    assert(text@ =~= struct_text(s@));
    text
}

/// The text of an enum.
pub fn format_enum_for_embedding(e: &EnumInfo) -> (r: String)
    ensures
        r@ == enum_text(e@),
{
    let mut names: Vec<String> = Vec::new();
    let mut i: usize = 0;
    while i < e.variants.len()
        invariant
            i <= e.variants.len(),
            texts(names@) == e@.variants.map_values(|v: VariantInfoView| v.name).take(i as int),
        decreases e.variants.len() - i,
    {
        let ghost before = names@;
        names.push(e.variants[i].name.clone());
        assert(texts(names@) =~= texts(before).push(e.variants@[i as int].name@));
        assert(texts(names@) =~= e@.variants.map_values(|v: VariantInfoView| v.name).take(i + 1));
        i += 1;
    }
    assert(e@.variants.map_values(|v: VariantInfoView| v.name).take(e.variants.len() as int)
        == e@.variants.map_values(|v: VariantInfoView| v.name));
    let mut text = String::from_str("enum ");
    text.append(e.name.as_str());
    push_members(&mut text, " with variants: ", &names);
    push_docs(&mut text, &e.docs);
    assert(text@ =~= enum_text(e@));
    text
}

/// The text of a trait.
pub fn format_trait_for_embedding(t: &TraitInfo) -> (r: String)
    ensures
        r@ == trait_text(t@),
{
    let mut text = String::from_str("trait ");
    text.append(t.name.as_str());
    push_docs(&mut text, &t.docs);
    text
}

/// The text of a macro.
pub fn format_macro_for_embedding(m: &MacroInfo) -> (r: String)
    ensures
        r@ == macro_text(m@),
{
    let mut text = String::from_str("macro ");
    text.append(m.name.as_str());
    text.append("!");
    push_docs(&mut text, &m.docs);
    text
}

/// The text of a type alias.
pub fn format_type_alias_for_embedding(t: &TypeAliasInfo) -> (r: String)
    ensures
        r@ == type_alias_text(t@),
{
    let mut text = String::from_str("type ");
    text.append(t.name.as_str());
    text.append(" = ");
    text.append(t.type_str.as_str());
    push_docs(&mut text, &t.docs);
    text
}

/// The text of a constant or a static.
pub fn format_constant_for_embedding(c: &ConstantInfo) -> (r: String)
    ensures
        r@ == constant_text(c@),
{
    let mut text = c.kind.clone();
    text.append(" ");
    text.append(c.name.as_str());
    text.append(": ");
    text.append(c.type_str.as_str());
    push_docs(&mut text, &c.docs);
    text
}

impl Describe for FunctionInfo {
    open spec fn tag() -> Seq<char> {
        "function"@
    }

    open spec fn description(v: FunctionInfoView) -> Seq<char> {
        function_text(v)
    }

    fn type_tag() -> (r: String) {
        String::from_str("function")
    }

    fn describe(&self) -> (r: String) {
        format_function_for_embedding(self)
    }
}

impl Describe for StructInfo {
    open spec fn tag() -> Seq<char> {
        "struct"@
    }

    open spec fn description(v: StructInfoView) -> Seq<char> {
        struct_text(v)
    }

    fn type_tag() -> (r: String) {
        String::from_str("struct")
    }

    fn describe(&self) -> (r: String) {
        format_struct_for_embedding(self)
    }
}

impl Describe for EnumInfo {
    open spec fn tag() -> Seq<char> {
        "enum"@
    }

    open spec fn description(v: EnumInfoView) -> Seq<char> {
        enum_text(v)
    }

    fn type_tag() -> (r: String) {
        String::from_str("enum")
    }

    fn describe(&self) -> (r: String) {
        format_enum_for_embedding(self)
    }
}

impl Describe for TraitInfo {
    open spec fn tag() -> Seq<char> {
        "trait"@
    }

    open spec fn description(v: TraitInfoView) -> Seq<char> {
        trait_text(v)
    }

    fn type_tag() -> (r: String) {
        String::from_str("trait")
    }

    fn describe(&self) -> (r: String) {
        format_trait_for_embedding(self)
    }
}

impl Describe for MacroInfo {
    open spec fn tag() -> Seq<char> {
        "macro"@
    }

    open spec fn description(v: MacroInfoView) -> Seq<char> {
        macro_text(v)
    }

    fn type_tag() -> (r: String) {
        String::from_str("macro")
    }

    fn describe(&self) -> (r: String) {
        format_macro_for_embedding(self)
    }
}

impl Describe for TypeAliasInfo {
    open spec fn tag() -> Seq<char> {
        "type_alias"@
    }

    open spec fn description(v: TypeAliasInfoView) -> Seq<char> {
        type_alias_text(v)
    }

    fn type_tag() -> (r: String) {
        String::from_str("type_alias")
    }

    fn describe(&self) -> (r: String) {
        format_type_alias_for_embedding(self)
    }
}

impl Describe for ConstantInfo {
    open spec fn tag() -> Seq<char> {
        "constant"@
    }

    open spec fn description(v: ConstantInfoView) -> Seq<char> {
        constant_text(v)
    }

    fn type_tag() -> (r: String) {
        String::from_str("constant")
    }

    fn describe(&self) -> (r: String) {
        format_constant_for_embedding(self)
    }
}

/// The declarations of kind `T` among `rows`, each with its text.
pub open spec fn described_rows<T: Describe>(rows: Seq<T::V>) -> Seq<DescribedView> {
    rows.map_values(
        |v: T::V| DescribedView { id: T::id_of(v), item_type: T::tag(), text: T::description(v) },
    )
}

/// Everything under `key` that is searched by meaning, kind by kind:
/// functions, structs, enums, traits, macros, type aliases, constants.
pub open spec fn described_items(db: Seq<PackageView>, key: Seq<char>) -> Seq<DescribedView> {
    described_rows::<FunctionInfo>(rows_for::<FunctionInfo>(db, key)) + described_rows::<StructInfo>(
        rows_for::<StructInfo>(db, key),
    ) + described_rows::<EnumInfo>(rows_for::<EnumInfo>(db, key)) + described_rows::<TraitInfo>(
        rows_for::<TraitInfo>(db, key),
    ) + described_rows::<MacroInfo>(rows_for::<MacroInfo>(db, key)) + described_rows::<
        TypeAliasInfo,
    >(rows_for::<TypeAliasInfo>(db, key)) + described_rows::<ConstantInfo>(
        rows_for::<ConstantInfo>(db, key),
    )
}

/// Appends to `out` the declarations of `rows`, each with its text.
fn describe_rows<T: Describe>(rows: &Vec<T>, out: &mut Vec<Described>)
    ensures
        row_views(final(out)@) == row_views(old(out)@) + described_rows::<T>(row_views(rows@)),
{
    let ghost start = row_views(out@);
    let ghost all = described_rows::<T>(row_views(rows@));
    let mut i: usize = 0;
    assert(row_views(out@) =~= start + all.take(0));
    while i < rows.len()
        invariant
            i <= rows.len(),
            all == described_rows::<T>(row_views(rows@)),
            row_views(out@) == start + all.take(i as int),
        decreases rows.len() - i,
    {
        let ghost before = out@;
        let d = Described {
            id: rows[i].ident().clone(),
            item_type: T::type_tag(),
            text: rows[i].describe(),
        };
        assert(row_views(rows@)[i as int] == rows@[i as int]@);
        assert(d@ == all[i as int]);
        out.push(d);
        assert(row_views(out@) =~= row_views(before).push(d@));
        assert(row_views(out@) =~= start + all.take(i + 1));
        i += 1;
    }
    assert(all.take(rows.len() as int) == all);
}

/// Everything under `crate_key` that is searched by meaning, each
/// declaration with its identifier, its kind in a word and its text.
pub fn items_to_embed(db: &Database, crate_key: &str) -> (r: Vec<Described>)
    ensures
        row_views(r@) == described_items(db@, crate_key@),
{
    let mut out: Vec<Described> = Vec::new();
    assert(row_views(out@) =~= Seq::<DescribedView>::empty());
    describe_rows::<FunctionInfo>(&db.get_functions(crate_key), &mut out);
    describe_rows::<StructInfo>(&db.get_structs(crate_key), &mut out);
    describe_rows::<EnumInfo>(&db.get_enums(crate_key), &mut out);
    describe_rows::<TraitInfo>(&db.get_traits(crate_key), &mut out);
    describe_rows::<MacroInfo>(&db.get_macros(crate_key), &mut out);
    describe_rows::<TypeAliasInfo>(&db.get_type_aliases(crate_key), &mut out);
    describe_rows::<ConstantInfo>(&db.get_constants(crate_key), &mut out);
    assert(row_views(out@) =~= described_items(db@, crate_key@));
    out
}

} // verus!
