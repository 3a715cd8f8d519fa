//! The catalog: every stored package with its declarations.
//!
//! The catalog is a sequence of packages in the order in which they were
//! last stored. A package is known by its key; no two stored packages share
//! a key, and within one declaration kind no two stored records share an
//! identifier. Storing a package replaces whatever was stored under its key.

use crate::storage::{
    clone_texts, row_views, ConstantInfo, CrateItems, CrateItemsView, Declaration, EnumInfo,
    FunctionInfo, ImplInfo, MacroInfo, Record, StructInfo, TraitInfo, TypeAliasInfo,
};
use crate::crawl::Limits;
use crate::text::{
    char_is_digit, chars_less, copy_str, has_prefix, is_digit, lemma_lex_chain,
    lemma_lex_one_way, lex_less, texts, to_chars,
};
use vstd::prelude::*;

verus! {

/// One stored package.
pub struct Package {
    pub key: String,
    pub path: String,
    pub items: CrateItems,
    pub reexports: Vec<String>,
}

/// What a stored package holds, as plain values.
pub struct PackageView {
    pub key: Seq<char>,
    pub path: Seq<char>,
    pub items: CrateItemsView,
    pub reexports: Seq<Seq<char>>,
}

impl View for Package {
    type V = PackageView;

    open spec fn view(&self) -> PackageView {
        PackageView {
            key: self.key@,
            path: self.path@,
            items: self.items@,
            reexports: texts(self.reexports@),
        }
    }
}

/// The declaration kinds, in the order in which their tables are searched.
#[derive(Debug, Clone, Copy, PartialEq, Eq, Structural)]
pub enum DeclKind {
    Function,
    Struct,
    Enum,
    Trait,
    Macro,
    TypeAlias,
    Constant,
    Impl,
}

/// Why the catalog refused to store a package. Nothing is stored then.
#[derive(Debug, Clone, Copy, PartialEq, Eq, Structural)]
pub enum StorageError {
    /// An identifier of the given kind occurs twice in the new catalog, or
    /// already belongs to another stored package.
    DuplicateIdentifier(DeclKind),
    /// A re-exported name is listed twice.
    DuplicateReexport,
}

/// The identifier of row `i` in package `p`'s table of kind `T`.
pub open spec fn row_id<T: Declaration>(db: Seq<PackageView>, p: int, i: int) -> Seq<char> {
    T::id_of(T::rows_of(db[p].items)[i])
}

/// Whether `(p, i)` names a row of kind `T` in `db`.
pub open spec fn is_row<T: Declaration>(db: Seq<PackageView>, p: int, i: int) -> bool {
    0 <= p < db.len() && 0 <= i < T::rows_of(db[p].items).len()
}

/// No two stored packages share a key.
pub open spec fn keys_distinct(db: Seq<PackageView>) -> bool {
    forall|i: int, j: int| 0 <= i < j < db.len() ==> #[trigger] db[i].key != #[trigger] db[j].key
}

/// No two stored rows of kind `T` share an identifier.
pub open spec fn ids_distinct<T: Declaration>(db: Seq<PackageView>) -> bool {
    forall|p: int, i: int, q: int, j: int|
        is_row::<T>(db, p, i) && is_row::<T>(db, q, j) && #[trigger] row_id::<T>(db, p, i)
            == #[trigger] row_id::<T>(db, q, j) ==> p == q && i == j
}

/// The invariant of the catalog.
pub open spec fn catalog_wf(db: Seq<PackageView>) -> bool {
    &&& keys_distinct(db)
    &&& ids_distinct::<FunctionInfo>(db)
    &&& ids_distinct::<StructInfo>(db)
    &&& ids_distinct::<EnumInfo>(db)
    &&& ids_distinct::<TraitInfo>(db)
    &&& ids_distinct::<MacroInfo>(db)
    &&& ids_distinct::<TypeAliasInfo>(db)
    &&& ids_distinct::<ConstantInfo>(db)
    &&& ids_distinct::<ImplInfo>(db)
    &&& forall|p: int| 0 <= p < db.len() ==> (#[trigger] db[p]).reexports.no_duplicates()
}

/// Whether a package is stored under `key`.
pub open spec fn has_key(db: Seq<PackageView>, key: Seq<char>) -> bool {
    exists|i: int| 0 <= i < db.len() && #[trigger] db[i].key == key
}

/// Where the package with `key` is stored, if it is.
pub open spec fn position(db: Seq<PackageView>, key: Seq<char>) -> Option<int> {
    if has_key(db, key) {
        Some(choose|i: int| 0 <= i < db.len() && #[trigger] db[i].key == key)
    } else {
        None
    }
}

/// The catalog without the package stored under `key`.
pub open spec fn without(db: Seq<PackageView>, key: Seq<char>) -> Seq<PackageView> {
    match position(db, key) {
        Some(i) => db.remove(i),
        None => db,
    }
}

/// The catalog after `pkg` has taken the place of whatever was stored under
/// its key: the other packages keep their order, `pkg` comes last.
pub open spec fn replaced(db: Seq<PackageView>, pkg: PackageView) -> Seq<PackageView> {
    without(db, pkg.key).push(pkg)
}

/// Whether `rows` can be stored under `key`: no identifier occurs twice in
/// `rows`, and none belongs to a row of the same kind of another package.
pub open spec fn fresh<T: Declaration>(db: Seq<PackageView>, key: Seq<char>, rows: Seq<T::V>) -> bool {
    &&& forall|i: int, j: int|
        0 <= i < j < rows.len() ==> T::id_of(#[trigger] rows[i]) != T::id_of(#[trigger] rows[j])
    &&& forall|p: int, i: int, j: int|
        is_row::<T>(db, p, i) && db[p].key != key && 0 <= j < rows.len() ==> #[trigger] row_id::<T>(
            db,
            p,
            i,
        ) != T::id_of(#[trigger] rows[j])
}

/// The first reason, in table order, for which `db` refuses to store
/// `items` and `reexports` under `key`; `None` when it accepts them.
pub open spec fn rejection(
    db: Seq<PackageView>,
    key: Seq<char>,
    items: CrateItemsView,
    reexports: Seq<Seq<char>>,
) -> Option<StorageError> {
    if !fresh::<FunctionInfo>(db, key, items.functions) {
        Some(StorageError::DuplicateIdentifier(DeclKind::Function))
    } else if !fresh::<StructInfo>(db, key, items.structs) {
        Some(StorageError::DuplicateIdentifier(DeclKind::Struct))
    } else if !fresh::<EnumInfo>(db, key, items.enums) {
        Some(StorageError::DuplicateIdentifier(DeclKind::Enum))
    } else if !fresh::<TraitInfo>(db, key, items.traits) {
        Some(StorageError::DuplicateIdentifier(DeclKind::Trait))
    } else if !fresh::<MacroInfo>(db, key, items.macros) {
        Some(StorageError::DuplicateIdentifier(DeclKind::Macro))
    } else if !fresh::<TypeAliasInfo>(db, key, items.type_aliases) {
        Some(StorageError::DuplicateIdentifier(DeclKind::TypeAlias))
    } else if !fresh::<ConstantInfo>(db, key, items.constants) {
        Some(StorageError::DuplicateIdentifier(DeclKind::Constant))
    } else if !fresh::<ImplInfo>(db, key, items.impls) {
        Some(StorageError::DuplicateIdentifier(DeclKind::Impl))
    } else if !reexports.no_duplicates() {
        Some(StorageError::DuplicateReexport)
    } else {
        None
    }
}

/// The rows of kind `T` stored under `key`; none when the key is unknown.
pub open spec fn rows_for<T: Declaration>(db: Seq<PackageView>, key: Seq<char>) -> Seq<T::V> {
    match position(db, key) {
        Some(i) => T::rows_of(db[i].items),
        None => Seq::empty(),
    }
}

/// Whether some stored row of kind `T` carries the identifier `id`.
pub open spec fn has_id<T: Declaration>(db: Seq<PackageView>, id: Seq<char>) -> bool {
    exists|p: int, i: int| is_row::<T>(db, p, i) && #[trigger] row_id::<T>(db, p, i) == id
}

/// The stored row of kind `T` with identifier `id`, together with the key of
/// the package that owns it.
pub open spec fn lookup<T: Declaration>(db: Seq<PackageView>, id: Seq<char>) -> Option<
    (Seq<char>, T::V),
> {
    if has_id::<T>(db, id) {
        let (p, i) = choose|p: int, i: int|
            is_row::<T>(db, p, i) && #[trigger] row_id::<T>(db, p, i) == id;
        Some((db[p].key, T::rows_of(db[p].items)[i]))
    } else {
        None
    }
}

/// In a catalog with distinct keys, the package stored under a key is found
/// where it stands.
pub proof fn lemma_position(db: Seq<PackageView>, i: int)
    requires
        keys_distinct(db),
        0 <= i < db.len(),
    ensures
        position(db, db[i].key) == Some(i),
{
    let key = db[i].key;
    assert(has_key(db, key));
    let c = choose|c: int| 0 <= c < db.len() && #[trigger] db[c].key == key;
    if c < i {
        assert(db[c].key != db[i].key);
    } else if i < c {
        assert(db[i].key != db[c].key);
    }
}

/// In a catalog with distinct identifiers, a row is found by its identifier.
pub proof fn lemma_lookup<T: Declaration>(db: Seq<PackageView>, p: int, i: int)
    requires
        ids_distinct::<T>(db),
        is_row::<T>(db, p, i),
    ensures
        lookup::<T>(db, row_id::<T>(db, p, i)) == Some((db[p].key, T::rows_of(db[p].items)[i])),
{
    let id = row_id::<T>(db, p, i);
    assert(has_id::<T>(db, id));
    let (q, j) = choose|q: int, j: int|
        is_row::<T>(db, q, j) && #[trigger] row_id::<T>(db, q, j) == id;
    assert(row_id::<T>(db, q, j) == row_id::<T>(db, p, i));
}

/// Where the packages of `without(db, key)` stand in `db`.
pub open spec fn source_index(db: Seq<PackageView>, key: Seq<char>, p: int) -> int {
    match position(db, key) {
        Some(i) => if p < i {
            p
        } else {
            p + 1
        },
        None => p,
    }
}

/// Taking the package with `key` out leaves the others as they were, none
/// of them with that key.
pub proof fn lemma_without(db: Seq<PackageView>, key: Seq<char>)
    requires
        keys_distinct(db),
    ensures
        keys_distinct(without(db, key)),
        !has_key(without(db, key), key),
        forall|p: int|
            0 <= p < without(db, key).len() ==> {
                &&& 0 <= source_index(db, key, p) < db.len()
                &&& (#[trigger] without(db, key)[p]) == db[source_index(db, key, p)]
                &&& db[source_index(db, key, p)].key != key
            },
        forall|p: int, q: int|
            0 <= p < q < without(db, key).len() ==> source_index(db, key, p) < source_index(
                db,
                key,
                q,
            ),
{
    let rest = without(db, key);
    match position(db, key) {
        Some(i) => {
            assert forall|p: int| 0 <= p < rest.len() implies {
                &&& 0 <= source_index(db, key, p) < db.len()
                &&& (#[trigger] rest[p]) == db[source_index(db, key, p)]
                &&& db[source_index(db, key, p)].key != key
            } by {
                let sp = source_index(db, key, p);
                if sp < i {
                    assert(db[sp].key != db[i].key);
                } else {
                    assert(db[i].key != db[sp].key);
                }
            }
            assert forall|a: int, b: int| 0 <= a < b < rest.len() implies #[trigger] rest[a].key
                != #[trigger] rest[b].key by {
                let sa = source_index(db, key, a);
                let sb = source_index(db, key, b);
                assert(rest[a] == db[sa]);
                assert(rest[b] == db[sb]);
                assert(db[sa].key != db[sb].key);
            }
            assert(!has_key(rest, key)) by {
                if has_key(rest, key) {
                    let c = choose|c: int| 0 <= c < rest.len() && #[trigger] rest[c].key == key;
                    assert(rest[c] == db[source_index(db, key, c)]);
                }
            }
        },
        None => {
            assert(!has_key(rest, key));
        },
    }
}

/// Storing a package whose rows of kind `T` are fresh keeps the identifiers
/// of that kind distinct.
pub proof fn lemma_ids_kept<T: Declaration>(db: Seq<PackageView>, pkg: PackageView)
    requires
        keys_distinct(db),
        ids_distinct::<T>(db),
        fresh::<T>(db, pkg.key, T::rows_of(pkg.items)),
    ensures
        ids_distinct::<T>(replaced(db, pkg)),
{
    let key = pkg.key;
    let rest = without(db, key);
    let nd = replaced(db, pkg);
    let rows = T::rows_of(pkg.items);
    lemma_without(db, key);
    assert forall|p: int, i: int, q: int, j: int|
        is_row::<T>(nd, p, i) && is_row::<T>(nd, q, j) && #[trigger] row_id::<T>(nd, p, i)
            == #[trigger] row_id::<T>(nd, q, j) implies p == q && i == j by {
        let sp = source_index(db, key, p);
        let sq = source_index(db, key, q);
        if p < rest.len() && q < rest.len() {
            assert(nd[p] == rest[p] && nd[q] == rest[q]);
            assert(rest[p] == db[sp] && rest[q] == db[sq]);
            assert(row_id::<T>(db, sp, i) == row_id::<T>(db, sq, j));
            assert(is_row::<T>(db, sp, i) && is_row::<T>(db, sq, j));
            assert(sp == sq && i == j);
            if p < q {
                assert(sp < sq);
            } else if q < p {
                assert(sq < sp);
            }
        } else if p < rest.len() {
            assert(nd[p] == rest[p] && rest[p] == db[sp] && nd[q] == pkg);
            assert(is_row::<T>(db, sp, i));
            assert(row_id::<T>(db, sp, i) != T::id_of(rows[j]));
        } else if q < rest.len() {
            assert(nd[q] == rest[q] && rest[q] == db[sq] && nd[p] == pkg);
            assert(is_row::<T>(db, sq, j));
            assert(row_id::<T>(db, sq, j) != T::id_of(rows[i]));
        } else {
            assert(nd[p] == pkg && nd[q] == pkg);
            if i < j {
                assert(T::id_of(rows[i]) != T::id_of(rows[j]));
            } else if j < i {
                assert(T::id_of(rows[j]) != T::id_of(rows[i]));
            }
        }
    }
}

/// Storing a package that the catalog accepts keeps the catalog's invariant.
pub proof fn lemma_replaced_wf(db: Seq<PackageView>, pkg: PackageView)
    requires
        catalog_wf(db),
        rejection(db, pkg.key, pkg.items, pkg.reexports).is_none(),
    ensures
        catalog_wf(replaced(db, pkg)),
{
    let key = pkg.key;
    let rest = without(db, key);
    let nd = replaced(db, pkg);
    lemma_without(db, key);
    lemma_ids_kept::<FunctionInfo>(db, pkg);
    lemma_ids_kept::<StructInfo>(db, pkg);
    lemma_ids_kept::<EnumInfo>(db, pkg);
    lemma_ids_kept::<TraitInfo>(db, pkg);
    lemma_ids_kept::<MacroInfo>(db, pkg);
    lemma_ids_kept::<TypeAliasInfo>(db, pkg);
    lemma_ids_kept::<ConstantInfo>(db, pkg);
    lemma_ids_kept::<ImplInfo>(db, pkg);
    assert forall|a: int, b: int| 0 <= a < b < nd.len() implies #[trigger] nd[a].key
        != #[trigger] nd[b].key by {
        assert(nd[a] == rest[a]);
        if b < rest.len() {
            assert(nd[b] == rest[b]);
        } else {
            assert(nd[b] == pkg);
            assert(rest[a].key != key);
        }
    }
    assert forall|p: int| 0 <= p < nd.len() implies (#[trigger] nd[p]).reexports.no_duplicates() by {
        if p < rest.len() {
            assert(nd[p] == rest[p]);
            assert(rest[p] == db[source_index(db, key, p)]);
        }
    }
}

/// A found row with the key of its package, as plain values.
pub open spec fn hit_view<T: View>(r: Option<(String, T)>) -> Option<(Seq<char>, T::V)> {
    match r {
        Some((k, t)) => Some((k@, t@)),
        None => None,
    }
}

/// A declaration of any kind.
#[derive(Debug, PartialEq, Eq)]
pub enum Item {
    Function(FunctionInfo),
    Struct(StructInfo),
    Enum(EnumInfo),
    Trait(TraitInfo),
    Macro(MacroInfo),
    TypeAlias(TypeAliasInfo),
    Constant(ConstantInfo),
    Impl(ImplInfo),
}

/// What an [`Item`] holds, as plain values.
pub enum ItemView {
    Function(<FunctionInfo as View>::V),
    Struct(<StructInfo as View>::V),
    Enum(<EnumInfo as View>::V),
    Trait(<TraitInfo as View>::V),
    Macro(<MacroInfo as View>::V),
    TypeAlias(<TypeAliasInfo as View>::V),
    Constant(<ConstantInfo as View>::V),
    Impl(<ImplInfo as View>::V),
}

impl View for Item {
    type V = ItemView;

    open spec fn view(&self) -> ItemView {
        match self {
            Item::Function(x) => ItemView::Function(x@),
            Item::Struct(x) => ItemView::Struct(x@),
            Item::Enum(x) => ItemView::Enum(x@),
            Item::Trait(x) => ItemView::Trait(x@),
            Item::Macro(x) => ItemView::Macro(x@),
            Item::TypeAlias(x) => ItemView::TypeAlias(x@),
            Item::Constant(x) => ItemView::Constant(x@),
            Item::Impl(x) => ItemView::Impl(x@),
        }
    }
}

impl Item {
    /// The kind of this declaration.
    pub fn kind(&self) -> (r: DeclKind)
        ensures
            r == item_kind(self@),
    {
        match self {
            Item::Function(_) => DeclKind::Function,
            Item::Struct(_) => DeclKind::Struct,
            Item::Enum(_) => DeclKind::Enum,
            Item::Trait(_) => DeclKind::Trait,
            Item::Macro(_) => DeclKind::Macro,
            Item::TypeAlias(_) => DeclKind::TypeAlias,
            Item::Constant(_) => DeclKind::Constant,
            Item::Impl(_) => DeclKind::Impl,
        }
    }
}

/// The kind of a declaration.
pub open spec fn item_kind(item: ItemView) -> DeclKind {
    match item {
        ItemView::Function(_) => DeclKind::Function,
        ItemView::Struct(_) => DeclKind::Struct,
        ItemView::Enum(_) => DeclKind::Enum,
        ItemView::Trait(_) => DeclKind::Trait,
        ItemView::Macro(_) => DeclKind::Macro,
        ItemView::TypeAlias(_) => DeclKind::TypeAlias,
        ItemView::Constant(_) => DeclKind::Constant,
        ItemView::Impl(_) => DeclKind::Impl,
    }
}

/// The declaration with identifier `id`, whatever its kind: the tables are
/// searched in the order of [`DeclKind`], and the first table that holds
/// the identifier decides.
pub open spec fn lookup_any(db: Seq<PackageView>, id: Seq<char>) -> Option<(Seq<char>, ItemView)> {
    if let Some((k, v)) = lookup::<FunctionInfo>(db, id) {
        Some((k, ItemView::Function(v)))
    } else if let Some((k, v)) = lookup::<StructInfo>(db, id) {
        Some((k, ItemView::Struct(v)))
    } else if let Some((k, v)) = lookup::<EnumInfo>(db, id) {
        Some((k, ItemView::Enum(v)))
    } else if let Some((k, v)) = lookup::<TraitInfo>(db, id) {
        Some((k, ItemView::Trait(v)))
    } else if let Some((k, v)) = lookup::<MacroInfo>(db, id) {
        Some((k, ItemView::Macro(v)))
    } else if let Some((k, v)) = lookup::<TypeAliasInfo>(db, id) {
        Some((k, ItemView::TypeAlias(v)))
    } else if let Some((k, v)) = lookup::<ConstantInfo>(db, id) {
        Some((k, ItemView::Constant(v)))
    } else if let Some((k, v)) = lookup::<ImplInfo>(db, id) {
        Some((k, ItemView::Impl(v)))
    } else {
        None
    }
}

/// A bare name that stands for several stored packages.
#[derive(Debug, PartialEq, Eq)]
pub struct AmbiguousReference {
    /// The name that was asked for.
    pub name: String,
    /// The stored keys that the name could stand for, in the order of
    /// dictionaries.
    pub candidates: Vec<String>,
}

/// Whether `key` is `name`, a hyphen, and a version that starts with a digit.
pub open spec fn is_version_of(key: Seq<char>, name: Seq<char>) -> bool {
    &&& key.len() >= name.len() + 2
    &&& key.take(name.len() as int) == name
    &&& key[name.len() as int] == '-'
    &&& is_digit(key[name.len() as int + 1])
}

/// The keys among `keys` that are versions of `name`, in their order.
pub open spec fn versions_of(keys: Seq<Seq<char>>, name: Seq<char>) -> Seq<Seq<char>>
    decreases keys.len(),
{
    if keys.len() == 0 {
        Seq::empty()
    } else {
        let rest = versions_of(keys.drop_last(), name);
        if is_version_of(keys.last(), name) {
            rest.push(keys.last())
        } else {
            rest
        }
    }
}

/// The keys of the stored packages, in catalog order.
pub open spec fn stored_keys(db: Seq<PackageView>) -> Seq<Seq<char>> {
    db.map_values(|p: PackageView| p.key)
}

/// `sorted` with `key` put in before the keys at its end that come after
/// it in the order of dictionaries.
pub open spec fn insert_sorted(sorted: Seq<Seq<char>>, key: Seq<char>) -> Seq<Seq<char>>
    decreases sorted.len(),
{
    if sorted.len() == 0 {
        seq![key]
    } else if lex_less(key, sorted.last()) {
        insert_sorted(sorted.drop_last(), key).push(sorted.last())
    } else {
        sorted.push(key)
    }
}

/// `keys` in the order of dictionaries; equal keys keep their order.
pub open spec fn sorted_keys(keys: Seq<Seq<char>>) -> Seq<Seq<char>>
    decreases keys.len(),
{
    if keys.len() == 0 {
        Seq::empty()
    } else {
        insert_sorted(sorted_keys(keys.drop_last()), keys.last())
    }
}

/// Putting a key in at the place from which on every key comes after it,
/// and before which none does, is putting it in sorted.
pub proof fn lemma_insert_at(sorted: Seq<Seq<char>>, key: Seq<char>, i: int)
    requires
        0 <= i <= sorted.len(),
        forall|j: int| i <= j < sorted.len() ==> lex_less(key, #[trigger] sorted[j]),
        i == 0 || !lex_less(key, sorted[i - 1]),
    ensures
        insert_sorted(sorted, key) == sorted.insert(i, key),
    decreases sorted.len(),
{
    if sorted.len() == 0 {
        assert(sorted.insert(i, key) =~= seq![key]);
    } else if i == sorted.len() {
        assert(sorted.insert(i, key) =~= sorted.push(key));
    } else {
        assert(lex_less(key, sorted[sorted.len() - 1]));
        lemma_insert_at(sorted.drop_last(), key, i);
        assert(sorted.insert(i, key) =~= sorted.drop_last().insert(i, key).push(sorted.last()));
    }
}

/// Whether no key of `keys` comes before a key that stands before it.
pub open spec fn ordered(keys: Seq<Seq<char>>) -> bool {
    forall|i: int, j: int|
        0 <= i < j < keys.len() ==> !lex_less(#[trigger] keys[j], #[trigger] keys[i])
}

/// Putting a key in adds that key and nothing else.
pub proof fn lemma_insert_sorted_holds(sorted: Seq<Seq<char>>, key: Seq<char>)
    ensures
        insert_sorted(sorted, key).len() == sorted.len() + 1,
        insert_sorted(sorted, key).contains(key),
        forall|i: int|
            0 <= i < sorted.len() ==> insert_sorted(sorted, key).contains(#[trigger] sorted[i]),
        forall|i: int|
            0 <= i < insert_sorted(sorted, key).len() ==> (#[trigger] insert_sorted(sorted, key)[i])
                == key || sorted.contains(insert_sorted(sorted, key)[i]),
    decreases sorted.len(),
{
    let r = insert_sorted(sorted, key);
    if sorted.len() == 0 {
        assert(r[0] == key);
    } else if lex_less(key, sorted.last()) {
        let dl = sorted.drop_last();
        let inner = insert_sorted(dl, key);
        lemma_insert_sorted_holds(dl, key);
        assert(r == inner.push(sorted.last()));
        assert(r.contains(key)) by {
            let k = choose|k: int| 0 <= k < inner.len() && inner[k] == key;
            assert(r[k] == key);
        }
        assert forall|i: int| 0 <= i < sorted.len() implies r.contains(#[trigger] sorted[i]) by {
            if i < dl.len() {
                assert(inner.contains(dl[i]));
                let k = choose|k: int| 0 <= k < inner.len() && inner[k] == dl[i];
                assert(r[k] == sorted[i]);
            } else {
                assert(r[inner.len() as int] == sorted[i]);
            }
        }
        assert forall|i: int| 0 <= i < r.len() implies (#[trigger] r[i]) == key || sorted.contains(
            r[i],
        ) by {
            if i < inner.len() {
                assert(r[i] == inner[i]);
                if inner[i] != key {
                    let k = choose|k: int| 0 <= k < dl.len() && dl[k] == inner[i];
                    assert(sorted[k] == r[i]);
                }
            } else {
                assert(sorted[sorted.len() - 1] == r[i]);
            }
        }
    } else {
        assert(r == sorted.push(key));
        assert(r[sorted.len() as int] == key);
        assert forall|i: int| 0 <= i < sorted.len() implies r.contains(#[trigger] sorted[i]) by {
            assert(r[i] == sorted[i]);
        }
        assert forall|i: int| 0 <= i < r.len() implies (#[trigger] r[i]) == key || sorted.contains(
            r[i],
        ) by {
            if i < sorted.len() {
                assert(sorted[i] == r[i]);
            }
        }
    }
}

/// Putting a key into an ordered list leaves the list ordered.
pub proof fn lemma_insert_sorted_ordered(sorted: Seq<Seq<char>>, key: Seq<char>)
    requires
        ordered(sorted),
    ensures
        ordered(insert_sorted(sorted, key)),
    decreases sorted.len(),
{
    let r = insert_sorted(sorted, key);
    if sorted.len() == 0 {
    } else if lex_less(key, sorted.last()) {
        let dl = sorted.drop_last();
        let inner = insert_sorted(dl, key);
        let last = sorted.last();
        assert(ordered(dl)) by {
            assert forall|i: int, j: int| 0 <= i < j < dl.len() implies !lex_less(
                #[trigger] dl[j],
                #[trigger] dl[i],
            ) by {
                assert(!lex_less(sorted[j], sorted[i]));
            }
        }
        lemma_insert_sorted_ordered(dl, key);
        lemma_insert_sorted_holds(dl, key);
        lemma_lex_one_way(key, last);
        assert forall|i: int, j: int| 0 <= i < j < r.len() implies !lex_less(
            #[trigger] r[j],
            #[trigger] r[i],
        ) by {
            if j < inner.len() {
                assert(!lex_less(inner[j], inner[i]));
            } else {
                assert(r[j] == last);
                assert(r[i] == inner[i]);
                if inner[i] != key {
                    let k = choose|k: int| 0 <= k < dl.len() && dl[k] == inner[i];
                    assert(!lex_less(sorted[sorted.len() - 1], sorted[k]));
                }
            }
        }
    } else {
        assert forall|i: int, j: int| 0 <= i < j < r.len() implies !lex_less(
            #[trigger] r[j],
            #[trigger] r[i],
        ) by {
            if j < sorted.len() {
                assert(!lex_less(sorted[j], sorted[i]));
            } else {
                assert(r[j] == key);
                assert(r[i] == sorted[i]);
                if i < sorted.len() - 1 {
                    assert(!lex_less(sorted[sorted.len() - 1], sorted[i]));
                    lemma_lex_chain(sorted[i], sorted.last(), key);
                }
            }
        }
    }
}

/// Sorting orders the keys and neither adds nor loses one.
pub proof fn law_sorted_keys(keys: Seq<Seq<char>>)
    ensures
        ordered(sorted_keys(keys)),
        sorted_keys(keys).len() == keys.len(),
        forall|i: int| 0 <= i < keys.len() ==> sorted_keys(keys).contains(#[trigger] keys[i]),
        forall|i: int|
            0 <= i < sorted_keys(keys).len() ==> keys.contains(#[trigger] sorted_keys(keys)[i]),
    decreases keys.len(),
{
    if keys.len() > 0 {
        let dl = keys.drop_last();
        let inner = sorted_keys(dl);
        let r = sorted_keys(keys);
        law_sorted_keys(dl);
        lemma_insert_sorted_ordered(inner, keys.last());
        lemma_insert_sorted_holds(inner, keys.last());
        assert forall|i: int| 0 <= i < keys.len() implies r.contains(#[trigger] keys[i]) by {
            if i < dl.len() {
                assert(inner.contains(dl[i]));
                let k = choose|k: int| 0 <= k < inner.len() && inner[k] == dl[i];
                assert(r.contains(inner[k]));
            }
        }
        assert forall|i: int| 0 <= i < r.len() implies keys.contains(#[trigger] r[i]) by {
            if r[i] != keys.last() {
                let k = choose|k: int| 0 <= k < inner.len() && inner[k] == r[i];
                assert(dl.contains(inner[k]));
                let q = choose|q: int| 0 <= q < dl.len() && dl[q] == inner[k];
                assert(keys[q] == r[i]);
            } else {
                assert(keys[keys.len() - 1] == r[i]);
            }
        }
    }
}

/// The stored key that `name` stands for: `name` itself when it is a
/// stored key; otherwise the one stored version of `name`, nothing when
/// there is none, and an error listing them, sorted, when there are
/// several.
pub open spec fn resolve(db: Seq<PackageView>, name: Seq<char>) -> Result<
    Option<Seq<char>>,
    Seq<Seq<char>>,
> {
    if has_key(db, name) {
        Ok(Some(name))
    } else {
        let m = versions_of(stored_keys(db), name);
        if m.len() == 0 {
            Ok(None)
        } else if m.len() == 1 {
            Ok(Some(m[0]))
        } else {
            Err(sorted_keys(m))
        }
    }
}

/// What `find_crate_key` returned, as plain values.
pub open spec fn resolution_view(r: Result<Option<String>, AmbiguousReference>) -> Result<
    Option<Seq<char>>,
    Seq<Seq<char>>,
> {
    match r {
        Ok(Some(k)) => Ok(Some(k@)),
        Ok(None) => Ok(None),
        Err(e) => Err(texts(e.candidates@)),
    }
}

/// Every version of a name among the stored keys is a stored key.
pub proof fn lemma_versions_are_keys(keys: Seq<Seq<char>>, name: Seq<char>)
    ensures
        forall|i: int|
            0 <= i < versions_of(keys, name).len() ==> keys.contains(
                #[trigger] versions_of(keys, name)[i],
            ) && is_version_of(versions_of(keys, name)[i], name),
    decreases keys.len(),
{
    if keys.len() > 0 {
        lemma_versions_are_keys(keys.drop_last(), name);
        let rest = versions_of(keys.drop_last(), name);
        assert forall|i: int| 0 <= i < versions_of(keys, name).len() implies keys.contains(
            #[trigger] versions_of(keys, name)[i],
        ) && is_version_of(versions_of(keys, name)[i], name) by {
            if i < rest.len() {
                let k = choose|k: int| 0 <= k < keys.drop_last().len() && keys.drop_last()[k] == rest[i];
                assert(keys[k] == rest[i]);
            } else {
                assert(keys[keys.len() - 1] == keys.last());
            }
        }
    }
}

/// After a package has been stored it stands last, under its key.
pub proof fn lemma_replaced_position(db: Seq<PackageView>, pkg: PackageView)
    requires
        keys_distinct(db),
    ensures
        position(replaced(db, pkg), pkg.key) == Some(without(db, pkg.key).len() as int),
        replaced(db, pkg)[without(db, pkg.key).len() as int] == pkg,
        keys_distinct(replaced(db, pkg)),
{
    let rest = without(db, pkg.key);
    let nd = replaced(db, pkg);
    lemma_without(db, pkg.key);
    assert(nd[rest.len() as int] == pkg);
    assert forall|a: int, b: int| 0 <= a < b < nd.len() implies #[trigger] nd[a].key
        != #[trigger] nd[b].key by {
        assert(nd[a] == rest[a]);
        if b < rest.len() {
            assert(nd[b] == rest[b]);
        } else {
            assert(rest[a].key != pkg.key);
        }
    }
    lemma_position(nd, rest.len() as int);
}

/// Storing a package leaves every package with another key where it can
/// be found, unchanged.
pub proof fn lemma_replaced_others(db: Seq<PackageView>, pkg: PackageView, q: int)
    requires
        keys_distinct(db),
        0 <= q < db.len(),
        db[q].key != pkg.key,
    ensures
        position(replaced(db, pkg), db[q].key) is Some,
        replaced(db, pkg)[position(replaced(db, pkg), db[q].key).unwrap()] == db[q],
{
    let rest = without(db, pkg.key);
    let nd = replaced(db, pkg);
    lemma_without(db, pkg.key);
    lemma_replaced_position(db, pkg);
    let p = match position(db, pkg.key) {
        Some(i) => if q < i {
            q
        } else {
            q - 1
        },
        None => q,
    };
    assert(0 <= p < rest.len() && source_index(db, pkg.key, p) == q) by {
        if let Some(i) = position(db, pkg.key) {
            assert(db[i].key == pkg.key);
        }
    }
    assert(rest[p] == db[q]);
    assert(nd[p] == db[q]);
    lemma_position(nd, p);
}

/// Storing under one key twice leaves the catalog as if only the second
/// package had been stored: nothing of the first remains.
pub proof fn law_last_replace_wins(db: Seq<PackageView>, first: PackageView, second: PackageView)
    requires
        catalog_wf(db),
        first.key == second.key,
    ensures
        replaced(replaced(db, first), second) == replaced(db, second),
{
    let key = first.key;
    let rest = without(db, key);
    let mid = replaced(db, first);
    lemma_without(db, key);
    lemma_replaced_position(db, first);
    assert(without(mid, key) =~= rest);
}

/// Storing the same package twice is the same as storing it once.
pub proof fn law_replace_is_idempotent(db: Seq<PackageView>, pkg: PackageView)
    requires
        catalog_wf(db),
    ensures
        replaced(replaced(db, pkg), pkg) == replaced(db, pkg),
{
    law_last_replace_wins(db, pkg, pkg);
}

/// After a package has been stored, the rows found under its key are
/// exactly the rows it was stored with, whatever stood there before; the
/// rows under every other key are what they were.
pub proof fn law_replace_stores_exactly<T: Declaration>(
    db: Seq<PackageView>,
    pkg: PackageView,
    other: Seq<char>,
)
    requires
        catalog_wf(db),
        other != pkg.key,
    ensures
        rows_for::<T>(replaced(db, pkg), pkg.key) == T::rows_of(pkg.items),
        rows_for::<T>(replaced(db, pkg), other) == rows_for::<T>(db, other),
{
    let nd = replaced(db, pkg);
    let rest = without(db, pkg.key);
    lemma_replaced_position(db, pkg);
    lemma_without(db, pkg.key);
    if has_key(db, other) {
        let q = position(db, other).unwrap();
        lemma_replaced_others(db, pkg, q);
    } else {
        assert forall|c: int| 0 <= c < nd.len() implies #[trigger] nd[c].key != other by {
            if c < rest.len() {
                assert(nd[c] == rest[c]);
                assert(rest[c] == db[source_index(db, pkg.key, c)]);
            }
        }
    }
}

/// After a package has been stored, every package of the catalog is either
/// the new one or an untouched package with another key: no record of the
/// package that it replaced is left behind.
pub proof fn law_replace_leaves_no_orphans(db: Seq<PackageView>, pkg: PackageView, p: int)
    requires
        catalog_wf(db),
        0 <= p < replaced(db, pkg).len(),
    ensures
        replaced(db, pkg)[p] == pkg || (replaced(db, pkg)[p].key != pkg.key && db.contains(
            replaced(db, pkg)[p],
        )),
{
    let nd = replaced(db, pkg);
    let rest = without(db, pkg.key);
    lemma_without(db, pkg.key);
    if p < rest.len() {
        assert(nd[p] == rest[p]);
        assert(rest[p] == db[source_index(db, pkg.key, p)]);
    }
}

/// Whether the catalog accepts a package does not depend on what is
/// stored under the package's own key.
pub proof fn law_acceptance_ignores_own_key(
    db: Seq<PackageView>,
    first: PackageView,
    second: PackageView,
)
    requires
        catalog_wf(db),
        first.key == second.key,
    ensures
        rejection(replaced(db, first), second.key, second.items, second.reexports) == rejection(
            db,
            second.key,
            second.items,
            second.reexports,
        ),
{
    lemma_fresh_ignores_own_key::<FunctionInfo>(db, first, second.items.functions);
    lemma_fresh_ignores_own_key::<StructInfo>(db, first, second.items.structs);
    lemma_fresh_ignores_own_key::<EnumInfo>(db, first, second.items.enums);
    lemma_fresh_ignores_own_key::<TraitInfo>(db, first, second.items.traits);
    lemma_fresh_ignores_own_key::<MacroInfo>(db, first, second.items.macros);
    lemma_fresh_ignores_own_key::<TypeAliasInfo>(db, first, second.items.type_aliases);
    lemma_fresh_ignores_own_key::<ConstantInfo>(db, first, second.items.constants);
    lemma_fresh_ignores_own_key::<ImplInfo>(db, first, second.items.impls);
}

/// Freshness of rows for a key looks only at the packages with other keys.
pub proof fn lemma_fresh_ignores_own_key<T: Declaration>(
    db: Seq<PackageView>,
    pkg: PackageView,
    rows: Seq<T::V>,
)
    requires
        keys_distinct(db),
    ensures
        fresh::<T>(replaced(db, pkg), pkg.key, rows) == fresh::<T>(db, pkg.key, rows),
{
    let key = pkg.key;
    let nd = replaced(db, pkg);
    let rest = without(db, key);
    lemma_without(db, key);
    lemma_replaced_position(db, pkg);
    if fresh::<T>(db, key, rows) {
        assert forall|p: int, i: int, j: int|
            is_row::<T>(nd, p, i) && nd[p].key != key && 0 <= j < rows.len() implies #[trigger] row_id::<
            T,
        >(nd, p, i) != T::id_of(#[trigger] rows[j]) by {
            assert(nd[p] == rest[p]);
            let sp = source_index(db, key, p);
            assert(rest[p] == db[sp]);
            assert(is_row::<T>(db, sp, i));
            assert(row_id::<T>(db, sp, i) != T::id_of(rows[j]));
        }
    }
    if fresh::<T>(nd, key, rows) {
        assert forall|q: int, i: int, j: int|
            is_row::<T>(db, q, i) && db[q].key != key && 0 <= j < rows.len() implies #[trigger] row_id::<
            T,
        >(db, q, i) != T::id_of(#[trigger] rows[j]) by {
            lemma_replaced_others(db, pkg, q);
            let p = position(nd, db[q].key).unwrap();
            assert(nd[p] == db[q]);
            assert(is_row::<T>(nd, p, i));
            assert(row_id::<T>(nd, p, i) != T::id_of(rows[j]));
        }
    }
}

/// A package key together with the keys of the packages that it
/// re-exports, directly or through others.
#[derive(Debug, PartialEq, Eq)]
pub struct Closure {
    /// The keys, the starting key first, each once.
    pub keys: Vec<String>,
    /// For each key in turn, how many re-export steps led to it from the
    /// starting key.
    pub depths: Vec<usize>,
    /// Whether `keys` holds every stored key that its keys re-export.
    pub complete: bool,
}

/// Whether key `k` of the walk was found by one re-export step from a key
/// that stands before it.
pub open spec fn step_into(db: Seq<PackageView>, ks: Seq<Seq<char>>, depths: Seq<usize>, k: int) -> bool {
    exists|m: int| 0 <= m < k && edge(db, #[trigger] ks[m], ks[k]) && depths[k] == depths[m] + 1
}

/// Whether `ks` and `depths` record a walk along re-exports from `root`:
/// the walk starts with `root` at depth zero, lists no key twice, and finds
/// each later key one step below a key that stands before it.
pub open spec fn walked(
    db: Seq<PackageView>,
    root: Seq<char>,
    ks: Seq<Seq<char>>,
    depths: Seq<usize>,
) -> bool {
    &&& ks.len() >= 1
    &&& depths.len() == ks.len()
    &&& ks[0] == root
    &&& depths[0] == 0
    &&& ks.no_duplicates()
    &&& forall|k: int| 1 <= k < ks.len() ==> #[trigger] step_into(db, ks, depths, k)
}

/// Whether a key found at `depth` steps may be expanded: whether the keys
/// one step below it are still within the depth limit.
pub open spec fn within_depth(limits: Limits, depth: usize) -> bool {
    limits.max_depth matches Some(d) ==> depth < d
}

/// Whether a walk that lists `count` keys may list one more.
pub open spec fn has_room(limits: Limits, count: nat) -> bool {
    limits.max_packages matches Some(m) ==> count < m
}

/// The keys of a recorded walk were found by following re-exports.
pub proof fn lemma_walked_is_discovered(
    db: Seq<PackageView>,
    root: Seq<char>,
    ks: Seq<Seq<char>>,
    depths: Seq<usize>,
)
    requires
        walked(db, root, ks, depths),
    ensures
        discovered(db, root, ks),
{
    assert forall|k: int| 1 <= k < ks.len() implies exists|m: int|
        0 <= m < k && edge(db, ks[m], #[trigger] ks[k]) by {
        assert(step_into(db, ks, depths, k));
        let m = choose|m: int|
            0 <= m < k && edge(db, #[trigger] ks[m], ks[k]) && depths[k] == depths[m] + 1;
        assert(0 <= m < k && edge(db, ks[m], ks[k]));
    }
}

/// The names re-exported by the package stored under `key`; none when the
/// key is unknown.
pub open spec fn reexports_of(db: Seq<PackageView>, key: Seq<char>) -> Seq<Seq<char>> {
    match position(db, key) {
        Some(i) => db[i].reexports,
        None => Seq::empty(),
    }
}

/// Whether the package `from` re-exports a name that stands for the stored
/// key `to`.
pub open spec fn edge(db: Seq<PackageView>, from: Seq<char>, to: Seq<char>) -> bool {
    exists|n: Seq<char>|
        reexports_of(db, from).contains(n) && #[trigger] resolve(db, n) == Ok::<
            Option<Seq<char>>,
            Seq<Seq<char>>,
        >(Some(to))
}

/// Whether `ks` lists keys found by following re-exports from `root`: it
/// starts with `root`, repeats nothing, and each later key is re-exported
/// by a key that stands before it.
pub open spec fn discovered(db: Seq<PackageView>, root: Seq<char>, ks: Seq<Seq<char>>) -> bool {
    &&& ks.len() >= 1
    &&& ks[0] == root
    &&& ks.no_duplicates()
    &&& forall|k: int|
        1 <= k < ks.len() ==> exists|m: int| 0 <= m < k && edge(db, ks[m], #[trigger] ks[k])
}

/// Whether every name that `key` re-exports stands for at most one stored
/// key, and every such key is listed in `ks`.
pub open spec fn expanded(db: Seq<PackageView>, ks: Seq<Seq<char>>, key: Seq<char>) -> bool {
    forall|n: Seq<char>|
        reexports_of(db, key).contains(n) ==> match #[trigger] resolve(db, n) {
            Ok(Some(t)) => ks.contains(t),
            Ok(None) => true,
            Err(_) => false,
        }
}

/// Whether `ks` holds every stored key that its keys re-export.
pub open spec fn closed(db: Seq<PackageView>, ks: Seq<Seq<char>>) -> bool {
    forall|m: int| 0 <= m < ks.len() ==> expanded(db, ks, #[trigger] ks[m])
}

/// What a name stands for, where it stands for something, is a stored key.
pub proof fn lemma_resolve_is_key(db: Seq<PackageView>, name: Seq<char>)
    ensures
        resolve(db, name) matches Ok(Some(t)) ==> stored_keys(db).contains(t),
{
    if has_key(db, name) {
        let c = choose|c: int| 0 <= c < db.len() && #[trigger] db[c].key == name;
        assert(stored_keys(db)[c] == name);
    } else {
        lemma_versions_are_keys(stored_keys(db), name);
    }
}

/// A list without repetitions whose items all occur in another list is no
/// longer than that list.
pub proof fn lemma_distinct_within(a: Seq<Seq<char>>, b: Seq<Seq<char>>)
    requires
        a.no_duplicates(),
        forall|i: int| 0 <= i < a.len() ==> b.contains(#[trigger] a[i]),
    ensures
        a.len() <= b.len(),
{
    a.unique_seq_to_set();
    b.lemma_cardinality_of_set();
    vstd::seq_lib::seq_to_set_is_finite(b);
    assert(a.to_set().subset_of(b.to_set())) by {
        assert forall|x: Seq<char>| a.to_set().contains(x) implies b.to_set().contains(x) by {
            let i = choose|i: int| 0 <= i < a.len() && a[i] == x;
            assert(b.contains(a[i]));
        }
    }
    vstd::set_lib::lemma_len_subset(a.to_set(), b.to_set());
}

/// Listing one more key keeps every expanded key expanded.
pub proof fn lemma_expanded_grows(db: Seq<PackageView>, ks: Seq<Seq<char>>, more: Seq<char>)
    ensures
        forall|key: Seq<char>| expanded(db, ks, key) ==> #[trigger] expanded(db, ks.push(more), key),
{
    assert forall|key: Seq<char>| expanded(db, ks, key) implies #[trigger] expanded(
        db,
        ks.push(more),
        key,
    ) by {
        assert forall|n: Seq<char>| reexports_of(db, key).contains(n) implies match #[trigger] resolve(
            db,
            n,
        ) {
            Ok(Some(t)) => ks.push(more).contains(t),
            Ok(None) => true,
            Err(_) => false,
        } by {
            if let Ok(Some(t)) = resolve(db, n) {
                let c = choose|c: int| 0 <= c < ks.len() && ks[c] == t;
                assert(ks.push(more)[c] == t);
            }
        }
    }
}

/// A key that is a version of a name counts among the versions of that
/// name.
pub proof fn lemma_version_is_counted(keys: Seq<Seq<char>>, name: Seq<char>, i: int)
    requires
        0 <= i < keys.len(),
        is_version_of(keys[i], name),
    ensures
        versions_of(keys, name).len() >= 1,
    decreases keys.len(),
{
    if i < keys.len() - 1 {
        lemma_version_is_counted(keys.drop_last(), name, i);
    }
}

/// Two keys that are versions of a name make at least two versions of it.
pub proof fn lemma_two_versions_are_counted(keys: Seq<Seq<char>>, name: Seq<char>, i: int, j: int)
    requires
        0 <= i < j < keys.len(),
        is_version_of(keys[i], name),
        is_version_of(keys[j], name),
    ensures
        versions_of(keys, name).len() >= 2,
    decreases keys.len(),
{
    if j < keys.len() - 1 {
        lemma_two_versions_are_counted(keys.drop_last(), name, i, j);
    } else {
        lemma_version_is_counted(keys.drop_last(), name, i);
    }
}

/// A stored key stands for itself, whatever else is stored.
pub proof fn law_stored_key_is_unambiguous(db: Seq<PackageView>, i: int)
    requires
        0 <= i < db.len(),
    ensures
        resolve(db, db[i].key) == Ok::<Option<Seq<char>>, Seq<Seq<char>>>(Some(db[i].key)),
{
    assert(has_key(db, db[i].key));
}

/// A bare name of which two versions are stored is ambiguous: it resolves
/// to an error that lists the stored versions.
pub proof fn law_two_versions_are_ambiguous(db: Seq<PackageView>, name: Seq<char>, i: int, j: int)
    requires
        0 <= i < j < db.len(),
        is_version_of(db[i].key, name),
        is_version_of(db[j].key, name),
        !has_key(db, name),
    ensures
        resolve(db, name) == Err::<Option<Seq<char>>, Seq<Seq<char>>>(
            sorted_keys(versions_of(stored_keys(db), name)),
        ),
        sorted_keys(versions_of(stored_keys(db), name)).contains(db[i].key),
        sorted_keys(versions_of(stored_keys(db), name)).contains(db[j].key),
        ordered(sorted_keys(versions_of(stored_keys(db), name))),
{
    let keys = stored_keys(db);
    let versions = versions_of(keys, name);
    assert(keys[i] == db[i].key && keys[j] == db[j].key);
    lemma_two_versions_are_counted(keys, name, i, j);
    lemma_versions_hold(keys, name, i);
    lemma_versions_hold(keys, name, j);
    law_sorted_keys(versions);
    let a = choose|a: int| 0 <= a < versions.len() && versions[a] == keys[i];
    let b = choose|b: int| 0 <= b < versions.len() && versions[b] == keys[j];
    assert(sorted_keys(versions).contains(versions[a]));
    assert(sorted_keys(versions).contains(versions[b]));
}

/// A key that is a version of a name is listed among the versions of it.
pub proof fn lemma_versions_hold(keys: Seq<Seq<char>>, name: Seq<char>, i: int)
    requires
        0 <= i < keys.len(),
        is_version_of(keys[i], name),
    ensures
        versions_of(keys, name).contains(keys[i]),
    decreases keys.len(),
{
    let rest = versions_of(keys.drop_last(), name);
    let all = versions_of(keys, name);
    if i < keys.len() - 1 {
        lemma_versions_hold(keys.drop_last(), name, i);
        let k = choose|k: int| 0 <= k < rest.len() && rest[k] == keys.drop_last()[i];
        assert(all[k] == keys[i]);
    } else {
        assert(all[rest.len() as int] == keys[i]);
    }
}

/// The catalog of stored packages.
pub struct Database {
    packages: Vec<Package>,
}

impl View for Database {
    type V = Seq<PackageView>;

    closed spec fn view(&self) -> Seq<PackageView> {
        row_views(self.packages@)
    }
}

impl Database {
    /// What holds of every catalog: no key twice, within a kind no
    /// identifier twice, and no re-export twice in a package.
    pub open spec fn wf(&self) -> bool {
        catalog_wf(self@)
    }

    /// The invariant as the type carries it.
    #[verifier::type_invariant]
    pub closed spec fn inv(&self) -> bool {
        catalog_wf(row_views(self.packages@))
    }

    /// What the type carries is what [`Database::wf`] says.
    pub proof fn lemma_inv(&self)
        requires
            self.inv(),
        ensures
            self.wf(),
    {
    }

    /// An empty catalog.
    pub fn new() -> (r: Self)
        ensures
            r.wf(),
            r@ == Seq::<PackageView>::empty(),
    {
        let r = Database { packages: Vec::new() };
        assert(r@ =~= Seq::<PackageView>::empty());
        r
    }

    /// The number of stored packages.
    pub fn len(&self) -> (r: usize)
        ensures
            self.wf(),
            r == self@.len(),
    {
        proof {
            use_type_invariant(&*self);
        }
        self.packages.len()
    }

    /// Where the package with `key` is stored, if it is.
    fn find_package(&self, key: &str) -> (r: Option<usize>)
        requires
            self.wf(),
        ensures
            match r {
                Some(i) => i < self@.len() && position(self@, key@) == Some(i as int) && self@[i as int]
                    == self.packages@[i as int]@,
                None => position(self@, key@).is_none(),
            },
    {
        let mut i: usize = 0;
        while i < self.packages.len()
            invariant
                i <= self.packages.len(),
                self.wf(),
                self@ == row_views(self.packages@),
                forall|k: int| 0 <= k < i ==> (#[trigger] self@[k]).key != key@,
            decreases self.packages.len() - i,
        {
            if *self.packages[i].key.as_str() == *key {
                proof {
                    lemma_position(self@, i as int);
                }
                return Some(i);
            }
            i += 1;
        }
        None
    }

    /// Whether a package is stored under `key`.
    pub fn contains_key(&self, key: &str) -> (r: bool)
        ensures
            self.wf(),
            r == has_key(self@, key@),
    {
        proof {
            use_type_invariant(&*self);
        }
        self.find_package(key).is_some()
    }

    /// The directory of the package stored under `key`.
    pub fn get_crate_path(&self, key: &str) -> (r: Option<String>)
        ensures
            self.wf(),
            match position(self@, key@) {
                Some(i) => r.is_some() && r.unwrap()@ == self@[i].path,
                None => r.is_none(),
            },
    {
        proof {
            use_type_invariant(&*self);
        }
        match self.find_package(key) {
            Some(i) => Some(self.packages[i].path.clone()),
            None => None,
        }
    }

    /// The names re-exported by the package stored under `key`; none when
    /// the key is unknown.
    pub fn get_reexports(&self, key: &str) -> (r: Vec<String>)
        ensures
            self.wf(),
            texts(r@) == match position(self@, key@) {
                Some(i) => self@[i].reexports,
                None => Seq::empty(),
            },
    {
        proof {
            use_type_invariant(&*self);
        }
        match self.find_package(key) {
            Some(i) => clone_texts(&self.packages[i].reexports),
            None => {
                let r: Vec<String> = Vec::new();
                assert(texts(r@) =~= Seq::<Seq<char>>::empty());
                r
            },
        }
    }

    /// Whether some row of kind `T` of a package other than `key` carries
    /// the identifier `id`.
    fn id_in_other<T: Declaration>(&self, key: &str, id: &str) -> (r: bool)
        ensures
            r == (exists|p: int, i: int|
                is_row::<T>(self@, p, i) && self@[p].key != key@ && #[trigger] row_id::<T>(
                    self@,
                    p,
                    i,
                ) == id@),
    {
        let mut p: usize = 0;
        while p < self.packages.len()
            invariant
                p <= self.packages.len(),
                self@ == row_views(self.packages@),
                forall|q: int, i: int|
                    0 <= q < p && is_row::<T>(self@, q, i) && self@[q].key != key@
                        ==> #[trigger] row_id::<T>(self@, q, i) != id@,
            decreases self.packages.len() - p,
        {
            if !(*self.packages[p].key.as_str() == *key) {
                let rows = T::rows(&self.packages[p].items);
                let mut i: usize = 0;
                while i < rows.len()
                    invariant
                        i <= rows.len(),
                        p < self.packages.len(),
                        self@ == row_views(self.packages@),
                        self@[p as int].key != key@,
                        row_views(rows@) == T::rows_of(self@[p as int].items),
                        forall|k: int| 0 <= k < i ==> #[trigger] row_id::<T>(self@, p as int, k) != id@,
                    decreases rows.len() - i,
                {
                    assert(row_views(rows@)[i as int] == rows@[i as int]@);
                    if *rows[i].ident().as_str() == *id {
                        assert(is_row::<T>(self@, p as int, i as int));
                        assert(row_id::<T>(self@, p as int, i as int) == id@);
                        return true;
                    }
                    i += 1;
                }
            }
            p += 1;
        }
        false
    }

    /// Whether `rows` can be stored under `key`.
    fn fresh_rows<T: Declaration>(&self, key: &str, rows: &Vec<T>) -> (r: bool)
        ensures
            r == fresh::<T>(self@, key@, row_views(rows@)),
    {
        let ghost rv = row_views(rows@);
        let mut j: usize = 0;
        while j < rows.len()
            invariant
                j <= rows.len(),
                rv == row_views(rows@),
                forall|a: int, b: int|
                    0 <= a < b < j ==> T::id_of(#[trigger] rv[a]) != T::id_of(#[trigger] rv[b]),
                forall|p: int, i: int, b: int|
                    is_row::<T>(self@, p, i) && self@[p].key != key@ && 0 <= b < j
                        ==> #[trigger] row_id::<T>(self@, p, i) != T::id_of(#[trigger] rv[b]),
            decreases rows.len() - j,
        {
            let id = rows[j].ident();
            assert(rv[j as int] == rows@[j as int]@);
            let mut a: usize = 0;
            while a < j
                invariant
                    a <= j < rows.len(),
                    rv == row_views(rows@),
                    id@ == T::id_of(rv[j as int]),
                    forall|k: int| 0 <= k < a ==> T::id_of(#[trigger] rv[k]) != id@,
                decreases j - a,
            {
                assert(rv[a as int] == rows@[a as int]@);
                if *rows[a].ident().as_str() == *id.as_str() {
                    assert(T::id_of(rv[a as int]) == T::id_of(rv[j as int]));
                    return false;
                }
                a += 1;
            }
            if self.id_in_other::<T>(key, id.as_str()) {
                let ghost (p, i) = choose|p: int, i: int|
                    is_row::<T>(self@, p, i) && self@[p].key != key@ && #[trigger] row_id::<T>(
                        self@,
                        p,
                        i,
                    ) == id@;
                assert(row_id::<T>(self@, p, i) == T::id_of(rv[j as int]));
                return false;
            }
            j += 1;
        }
        true
    }

    /// Replaces the package stored under `key`: in one step the old
    /// package, if any, leaves the catalog with all its records, and the
    /// new one is stored with `items` and `reexports`. When the catalog
    /// refuses the new package, nothing changes.
    pub fn add_crate(&mut self, key: &str, path: &str, items: &CrateItems, reexports: &[String]) -> (r:
        Result<(), StorageError>)
        ensures
            old(self).wf(),
            final(self).wf(),
            match rejection(old(self)@, key@, items@, texts(reexports@)) {
                Some(e) => r == Err::<(), StorageError>(e) && final(self)@ == old(self)@,
                None => r.is_ok() && final(self)@ == replaced(
                    old(self)@,
                    PackageView {
                        key: key@,
                        path: path@,
                        items: items@,
                        reexports: texts(reexports@),
                    },
                ),
            },
    {
        proof {
            use_type_invariant(&*self);
        }
        if !self.fresh_rows::<FunctionInfo>(key, &items.functions) {
            return Err(StorageError::DuplicateIdentifier(DeclKind::Function));
        }
        if !self.fresh_rows::<StructInfo>(key, &items.structs) {
            return Err(StorageError::DuplicateIdentifier(DeclKind::Struct));
        }
        if !self.fresh_rows::<EnumInfo>(key, &items.enums) {
            return Err(StorageError::DuplicateIdentifier(DeclKind::Enum));
        }
        if !self.fresh_rows::<TraitInfo>(key, &items.traits) {
            return Err(StorageError::DuplicateIdentifier(DeclKind::Trait));
        }
        if !self.fresh_rows::<MacroInfo>(key, &items.macros) {
            return Err(StorageError::DuplicateIdentifier(DeclKind::Macro));
        }
        if !self.fresh_rows::<TypeAliasInfo>(key, &items.type_aliases) {
            return Err(StorageError::DuplicateIdentifier(DeclKind::TypeAlias));
        }
        if !self.fresh_rows::<ConstantInfo>(key, &items.constants) {
            return Err(StorageError::DuplicateIdentifier(DeclKind::Constant));
        }
        if !self.fresh_rows::<ImplInfo>(key, &items.impls) {
            return Err(StorageError::DuplicateIdentifier(DeclKind::Impl));
        }
        let names = copy_texts(reexports);
        if !all_distinct(&names) {
            return Err(StorageError::DuplicateReexport);
        }
        let found = self.find_package(key);
        let pkg = Package { key: copy_str(key), path: copy_str(path), items: items.duplicate(), reexports: names };
        proof {
            lemma_replaced_wf(old(self)@, pkg@);
        }
        let mut packages: Vec<Package> = Vec::new();
        assert(row_views(packages@) =~= Seq::<PackageView>::empty());
        std::mem::swap(&mut packages, &mut self.packages);
        match found {
            Some(i) => {
                packages.remove(i);
                assert(row_views(packages@) =~= old(self)@.remove(i as int));
            },
            None => {},
        }
        let ghost rest = row_views(packages@);
        packages.push(pkg);
        assert(row_views(packages@) =~= rest.push(pkg@));
        self.packages = packages;
        Ok(())
    }

    /// The rows of kind `T` stored under `key`.
    fn rows_under<T: Declaration>(&self, key: &str) -> (r: Vec<T>)
        requires
            self.wf(),
        ensures
            row_views(r@) == rows_for::<T>(self@, key@),
    {
        match self.find_package(key) {
            Some(i) => {
                let rows = T::rows(&self.packages[i].items);
                let r = crate::storage::clone_rows(rows);
                r
            },
            None => {
                let r: Vec<T> = Vec::new();
                assert(row_views(r@) =~= Seq::<T::V>::empty());
                r
            },
        }
    }

    /// The row of kind `T` with identifier `id`, and the key of its package.
    fn row_by_id<T: Declaration>(&self, id: &str) -> (r: Option<(String, T)>)
        requires
            self.wf(),
            ids_distinct::<T>(self@),
        ensures
            hit_view(r) == lookup::<T>(self@, id@),
    {
        let mut p: usize = 0;
        while p < self.packages.len()
            invariant
                p <= self.packages.len(),
                self@ == row_views(self.packages@),
                ids_distinct::<T>(self@),
                forall|q: int, i: int|
                    0 <= q < p && is_row::<T>(self@, q, i) ==> #[trigger] row_id::<T>(self@, q, i)
                        != id@,
            decreases self.packages.len() - p,
        {
            let rows = T::rows(&self.packages[p].items);
            let mut i: usize = 0;
            while i < rows.len()
                invariant
                    i <= rows.len(),
                    p < self.packages.len(),
                    self@ == row_views(self.packages@),
                    ids_distinct::<T>(self@),
                    row_views(rows@) == T::rows_of(self@[p as int].items),
                    forall|k: int| 0 <= k < i ==> #[trigger] row_id::<T>(self@, p as int, k) != id@,
                decreases rows.len() - i,
            {
                assert(row_views(rows@)[i as int] == rows@[i as int]@);
                if *rows[i].ident().as_str() == *id {
                    proof {
                        lemma_lookup::<T>(self@, p as int, i as int);
                    }
                    return Some((self.packages[p].key.clone(), rows[i].duplicate()));
                }
                i += 1;
            }
            p += 1;
        }
        assert(!has_id::<T>(self@, id@));
        None
    }

    /// The functions of the package stored under `crate_key`, in the
    /// order in which they were stored; none when the key is unknown.
    pub fn get_functions(&self, crate_key: &str) -> (r: Vec<FunctionInfo>)
        ensures
            self.wf(),
            row_views(r@) == rows_for::<FunctionInfo>(self@, crate_key@),
    {
        proof {
            use_type_invariant(&*self);
        }
        self.rows_under::<FunctionInfo>(crate_key)
    }

    /// The function with identifier `id`, and the key of its package.
    pub fn get_function_by_id(&self, id: &str) -> (r: Option<(String, FunctionInfo)>)
        ensures
            self.wf(),
            hit_view(r) == lookup::<FunctionInfo>(self@, id@),
    {
        proof {
            use_type_invariant(&*self);
        }
        self.row_by_id::<FunctionInfo>(id)
    }

    /// The structs of the package stored under `crate_key`, in the
    /// order in which they were stored; none when the key is unknown.
    pub fn get_structs(&self, crate_key: &str) -> (r: Vec<StructInfo>)
        ensures
            self.wf(),
            row_views(r@) == rows_for::<StructInfo>(self@, crate_key@),
    {
        proof {
            use_type_invariant(&*self);
        }
        self.rows_under::<StructInfo>(crate_key)
    }

    /// The struct with identifier `id`, and the key of its package.
    pub fn get_struct_by_id(&self, id: &str) -> (r: Option<(String, StructInfo)>)
        ensures
            self.wf(),
            hit_view(r) == lookup::<StructInfo>(self@, id@),
    {
        proof {
            use_type_invariant(&*self);
        }
        self.row_by_id::<StructInfo>(id)
    }

    /// The enums of the package stored under `crate_key`, in the
    /// order in which they were stored; none when the key is unknown.
    pub fn get_enums(&self, crate_key: &str) -> (r: Vec<EnumInfo>)
        ensures
            self.wf(),
            row_views(r@) == rows_for::<EnumInfo>(self@, crate_key@),
    {
        proof {
            use_type_invariant(&*self);
        }
        self.rows_under::<EnumInfo>(crate_key)
    }

    /// The enum with identifier `id`, and the key of its package.
    pub fn get_enum_by_id(&self, id: &str) -> (r: Option<(String, EnumInfo)>)
        ensures
            self.wf(),
            hit_view(r) == lookup::<EnumInfo>(self@, id@),
    {
        proof {
            use_type_invariant(&*self);
        }
        self.row_by_id::<EnumInfo>(id)
    }

    /// The traits of the package stored under `crate_key`, in the
    /// order in which they were stored; none when the key is unknown.
    pub fn get_traits(&self, crate_key: &str) -> (r: Vec<TraitInfo>)
        ensures
            self.wf(),
            row_views(r@) == rows_for::<TraitInfo>(self@, crate_key@),
    {
        proof {
            use_type_invariant(&*self);
        }
        self.rows_under::<TraitInfo>(crate_key)
    }

    /// The trait with identifier `id`, and the key of its package.
    pub fn get_trait_by_id(&self, id: &str) -> (r: Option<(String, TraitInfo)>)
        ensures
            self.wf(),
            hit_view(r) == lookup::<TraitInfo>(self@, id@),
    {
        proof {
            use_type_invariant(&*self);
        }
        self.row_by_id::<TraitInfo>(id)
    }

    /// The macros of the package stored under `crate_key`, in the
    /// order in which they were stored; none when the key is unknown.
    pub fn get_macros(&self, crate_key: &str) -> (r: Vec<MacroInfo>)
        ensures
            self.wf(),
            row_views(r@) == rows_for::<MacroInfo>(self@, crate_key@),
    {
        proof {
            use_type_invariant(&*self);
        }
        self.rows_under::<MacroInfo>(crate_key)
    }

    /// The macro with identifier `id`, and the key of its package.
    pub fn get_macro_by_id(&self, id: &str) -> (r: Option<(String, MacroInfo)>)
        ensures
            self.wf(),
            hit_view(r) == lookup::<MacroInfo>(self@, id@),
    {
        proof {
            use_type_invariant(&*self);
        }
        self.row_by_id::<MacroInfo>(id)
    }

    /// The type aliases of the package stored under `crate_key`, in the
    /// order in which they were stored; none when the key is unknown.
    pub fn get_type_aliases(&self, crate_key: &str) -> (r: Vec<TypeAliasInfo>)
        ensures
            self.wf(),
            row_views(r@) == rows_for::<TypeAliasInfo>(self@, crate_key@),
    {
        proof {
            use_type_invariant(&*self);
        }
        self.rows_under::<TypeAliasInfo>(crate_key)
    }

    /// The type alias with identifier `id`, and the key of its package.
    pub fn get_type_alias_by_id(&self, id: &str) -> (r: Option<(String, TypeAliasInfo)>)
        ensures
            self.wf(),
            hit_view(r) == lookup::<TypeAliasInfo>(self@, id@),
    {
        proof {
            use_type_invariant(&*self);
        }
        self.row_by_id::<TypeAliasInfo>(id)
    }

    /// The constants and statics of the package stored under `crate_key`, in the
    /// order in which they were stored; none when the key is unknown.
    pub fn get_constants(&self, crate_key: &str) -> (r: Vec<ConstantInfo>)
        ensures
            self.wf(),
            row_views(r@) == rows_for::<ConstantInfo>(self@, crate_key@),
    {
        proof {
            use_type_invariant(&*self);
        }
        self.rows_under::<ConstantInfo>(crate_key)
    }

    /// The constant or static with identifier `id`, and the key of its package.
    pub fn get_constant_by_id(&self, id: &str) -> (r: Option<(String, ConstantInfo)>)
        ensures
            self.wf(),
            hit_view(r) == lookup::<ConstantInfo>(self@, id@),
    {
        proof {
            use_type_invariant(&*self);
        }
        self.row_by_id::<ConstantInfo>(id)
    }

    /// The implementations of the package stored under `crate_key`, in the
    /// order in which they were stored; none when the key is unknown.
    pub fn get_impls(&self, crate_key: &str) -> (r: Vec<ImplInfo>)
        ensures
            self.wf(),
            row_views(r@) == rows_for::<ImplInfo>(self@, crate_key@),
    {
        proof {
            use_type_invariant(&*self);
        }
        self.rows_under::<ImplInfo>(crate_key)
    }

    /// The implementation with identifier `id`, and the key of its package.
    pub fn get_impl_by_id(&self, id: &str) -> (r: Option<(String, ImplInfo)>)
        ensures
            self.wf(),
            hit_view(r) == lookup::<ImplInfo>(self@, id@),
    {
        proof {
            use_type_invariant(&*self);
        }
        self.row_by_id::<ImplInfo>(id)
    }

    /// The declaration with identifier `id`, whatever its kind, and the key
    /// of its package. Identifiers are not told apart by kind: where two
    /// kinds hold the same identifier, the kind that comes first in
    /// [`DeclKind`] wins.
    pub fn find_item(&self, id: &str) -> (r: Option<(String, Item)>)
        ensures
            self.wf(),
            hit_view(r) == lookup_any(self@, id@),
    {
        proof {
            use_type_invariant(&*self);
        }
        if let Some((k, x)) = self.get_function_by_id(id) {
            return Some((k, Item::Function(x)));
        }
        if let Some((k, x)) = self.get_struct_by_id(id) {
            return Some((k, Item::Struct(x)));
        }
        if let Some((k, x)) = self.get_enum_by_id(id) {
            return Some((k, Item::Enum(x)));
        }
        if let Some((k, x)) = self.get_trait_by_id(id) {
            return Some((k, Item::Trait(x)));
        }
        if let Some((k, x)) = self.get_macro_by_id(id) {
            return Some((k, Item::Macro(x)));
        }
        if let Some((k, x)) = self.get_type_alias_by_id(id) {
            return Some((k, Item::TypeAlias(x)));
        }
        if let Some((k, x)) = self.get_constant_by_id(id) {
            return Some((k, Item::Constant(x)));
        }
        if let Some((k, x)) = self.get_impl_by_id(id) {
            return Some((k, Item::Impl(x)));
        }
        None
    }

    /// The stored key that `name` stands for. A stored key stands for
    /// itself. A bare name stands for its one stored version; with no
    /// stored version there is nothing to return, and with several the
    /// reference is ambiguous and the caller has to name a version.
    pub fn find_crate_key(&self, name: &str) -> (r: Result<Option<String>, AmbiguousReference>)
        ensures
            self.wf(),
            resolution_view(r) == resolve(self@, name@),
            r matches Err(e) ==> e.name@ == name@,
    {
        proof {
            use_type_invariant(&*self);
        }
        if self.find_package(name).is_some() {
            return Ok(Some(copy_str(name)));
        }
        let wanted = to_chars(name);
        let mut found: Vec<String> = Vec::new();
        let mut i: usize = 0;
        while i < self.packages.len()
            invariant
                i <= self.packages.len(),
                self@ == row_views(self.packages@),
                wanted@ == name@,
                texts(found@) == versions_of(stored_keys(self@).take(i as int), name@),
            decreases self.packages.len() - i,
        {
            let ghost keys = stored_keys(self@);
            assert(keys.take(i + 1).drop_last() == keys.take(i as int));
            assert(keys.take(i + 1).last() == self.packages@[i as int].key@);
            let key = to_chars(self.packages[i].key.as_str());
            if is_version_key(&key, &wanted) {
                let ghost before = found@;
                found.push(self.packages[i].key.clone());
                assert(texts(found@) =~= texts(before).push(self.packages@[i as int].key@));
            }
            i += 1;
        }
        assert(stored_keys(self@).take(self@.len() as int) == stored_keys(self@));
        if found.len() == 0 {
            Ok(None)
        } else if found.len() == 1 {
            let k = found[0].clone();
            assert(texts(found@)[0] == found@[0]@);
            Ok(Some(k))
        } else {
            Err(AmbiguousReference { name: copy_str(name), candidates: sort_texts(&found) })
        }
    }

    /// Whether every name that `key` re-exports stands for at most one
    /// stored key, and every such key is among `keys`.
    fn is_expanded(&self, keys: &Vec<String>, key: &str) -> (r: bool)
        ensures
            r == expanded(self@, texts(keys@), key@),
    {
        proof {
            use_type_invariant(&*self);
        }
        let names = self.get_reexports(key);
        let mut j: usize = 0;
        while j < names.len()
            invariant
                j <= names.len(),
                texts(names@) == reexports_of(self@, key@),
                forall|i: int|
                    0 <= i < j ==> match #[trigger] resolve(self@, texts(names@)[i]) {
                        Ok(Some(t)) => texts(keys@).contains(t),
                        Ok(None) => true,
                        Err(_) => false,
                    },
            decreases names.len() - j,
        {
            let ghost name = texts(names@)[j as int];
            assert(name == names@[j as int]@);
            assert(reexports_of(self@, key@).contains(name));
            match self.find_crate_key(names[j].as_str()) {
                Err(_) => {
                    assert(resolve(self@, name).is_err());
                    return false;
                },
                Ok(None) => {},
                Ok(Some(t)) => {
                    if !contains_text(keys, t.as_str()) {
                        assert(resolve(self@, name) == Ok::<Option<Seq<char>>, Seq<Seq<char>>>(
                            Some(t@),
                        ));
                        return false;
                    }
                },
            }
            j += 1;
        }
        assert forall|n: Seq<char>| reexports_of(self@, key@).contains(n) implies match #[trigger] resolve(
            self@,
            n,
        ) {
            Ok(Some(t)) => texts(keys@).contains(t),
            Ok(None) => true,
            Err(_) => false,
        } by {
            let i = choose|i: int| 0 <= i < texts(names@).len() && texts(names@)[i] == n;
            assert(resolve(self@, texts(names@)[i]) == resolve(self@, n));
        }
        true
    }

    /// The key `root_key` and the keys of the stored packages that it
    /// re-exports, directly or through others, each with the number of
    /// re-export steps that led to it. A re-exported name counts where it
    /// stands for a stored key; a name that stands for several is an
    /// error.
    ///
    /// `limits` bound the walk. A key found `max_depth` steps from
    /// `root_key` is listed but not looked into. Once `max_packages` keys
    /// are listed, the walk ends where the next key would be listed, and
    /// what was found so far is returned. Every other key is looked into,
    /// so without limits the list holds all there is.
    pub fn keys_with_reexports(&self, root_key: &str, limits: Limits) -> (r: Result<
        Closure,
        AmbiguousReference,
    >)
        ensures
            self.wf(),
            match r {
                Ok(c) => {
                    &&& walked(self@, root_key@, texts(c.keys@), c.depths@)
                    &&& discovered(self@, root_key@, texts(c.keys@))
                    &&& c.complete <==> closed(self@, texts(c.keys@))
                    &&& forall|k: int|
                        0 <= k < c.depths@.len() ==> (limits.max_depth matches Some(d) ==> (
                        #[trigger] c.depths@[k]) <= d)
                    &&& limits.max_packages matches Some(m) ==> c.keys@.len() <= m || c.keys@.len()
                        == 1
                    &&& has_room(limits, c.keys@.len()) ==> forall|k: int|
                        0 <= k < c.keys@.len() && within_depth(limits, c.depths@[k]) ==> expanded(
                            self@,
                            texts(c.keys@),
                            #[trigger] texts(c.keys@)[k],
                        )
                    &&& limits.max_depth.is_none() && limits.max_packages.is_none() ==> c.complete
                },
                Err(e) => exists|ks: Seq<Seq<char>>, m: int|
                    discovered(self@, root_key@, ks) && 0 <= m < ks.len() && reexports_of(
                        self@,
                        #[trigger] ks[m],
                    ).contains(e.name@) && resolve(self@, e.name@) == Err::<
                        Option<Seq<char>>,
                        Seq<Seq<char>>,
                    >(texts(e.candidates@)),
            },
    {
        proof {
            use_type_invariant(&*self);
        }
        let ghost db = self@;
        let mut keys: Vec<String> = Vec::new();
        keys.push(copy_str(root_key));
        let mut key_depths: Vec<usize> = Vec::new();
        key_depths.push(0);
        let mut stack: Vec<usize> = Vec::new();
        stack.push(0);
        assert(texts(keys@) =~= seq![root_key@]);
        assert(stack@[0] == 0usize);
        while stack.len() > 0
            invariant
                self.wf(),
                db == self@,
                walked(db, root_key@, texts(keys@), key_depths@),
                keys.len() <= db.len() + 1,
                forall|k: int| 1 <= k < keys.len() ==> stored_keys(db).contains(#[trigger] texts(keys@)[k]),
                forall|x: int| 0 <= x < stack.len() ==> (#[trigger] stack@[x]) < keys.len(),
                forall|k: int| 0 <= k < keys.len() ==> (#[trigger] key_depths@[k]) <= k,
                forall|k: int|
                    0 <= k < keys.len() ==> (limits.max_depth matches Some(d) ==> (
                    #[trigger] key_depths@[k]) <= d),
                forall|m: int|
                    0 <= m < keys.len() && !stack@.contains(m as usize) && within_depth(
                        limits,
                        key_depths@[m],
                    ) ==> expanded(db, texts(keys@), #[trigger] texts(keys@)[m]),
                limits.max_packages matches Some(mx) ==> keys.len() <= mx || keys.len() == 1,
            decreases 2 * (db.len() + 1 - keys.len()) + stack.len(),
        {
            let ghost old_stack = stack@;
            let ghost measure = 2 * (db.len() + 1 - keys.len()) + stack.len();
            let cur = stack.pop().unwrap();
            assert(old_stack == stack@.push(cur));
            assert(old_stack[stack@.len() as int] == cur);
            let depth = key_depths[cur];
            let look = match limits.max_depth {
                Some(d) => depth < d,
                None => true,
            };
            assert(look == within_depth(limits, depth));
            if look {
                let names = self.get_reexports(keys[cur].as_str());
                let ghost cur_key = texts(keys@)[cur as int];
                assert(texts(names@) == reexports_of(db, cur_key));
                let mut j: usize = 0;
                while j < names.len()
                    invariant
                        self.wf(),
                        db == self@,
                        j <= names.len(),
                        cur < keys.len(),
                        depth == key_depths@[cur as int],
                        within_depth(limits, depth),
                        cur_key == texts(keys@)[cur as int],
                        texts(names@) == reexports_of(db, cur_key),
                        walked(db, root_key@, texts(keys@), key_depths@),
                        keys.len() <= db.len() + 1,
                        forall|k: int|
                            1 <= k < keys.len() ==> stored_keys(db).contains(#[trigger] texts(keys@)[k]),
                        forall|x: int| 0 <= x < stack.len() ==> (#[trigger] stack@[x]) < keys.len(),
                        forall|k: int| 0 <= k < keys.len() ==> (#[trigger] key_depths@[k]) <= k,
                        forall|k: int|
                            0 <= k < keys.len() ==> (limits.max_depth matches Some(d) ==> (
                            #[trigger] key_depths@[k]) <= d),
                        forall|m: int|
                            0 <= m < keys.len() && m != cur && !stack@.contains(m as usize)
                                && within_depth(limits, key_depths@[m]) ==> expanded(
                                db,
                                texts(keys@),
                                #[trigger] texts(keys@)[m],
                            ),
                        forall|i: int|
                            0 <= i < j ==> match #[trigger] resolve(db, texts(names@)[i]) {
                                Ok(Some(t)) => texts(keys@).contains(t),
                                Ok(None) => true,
                                Err(_) => false,
                            },
                        limits.max_packages matches Some(mx) ==> keys.len() <= mx || keys.len() == 1,
                        2 * (db.len() + 1 - keys.len()) + stack.len() < measure,
                    decreases names.len() - j,
                {
                    let ghost ks0 = texts(keys@);
                    let ghost ds0 = key_depths@;
                    let ghost name = texts(names@)[j as int];
                    assert(name == names@[j as int]@);
                    assert(reexports_of(db, cur_key).contains(name));
                    let found = self.find_crate_key(names[j].as_str());
                    match found {
                        Err(e) => {
                            proof {
                                lemma_walked_is_discovered(db, root_key@, ks0, ds0);
                            }
                            return Err(e);
                        },
                        Ok(None) => {},
                        Ok(Some(k)) => {
                            if !contains_text(&keys, k.as_str()) {
                                assert(resolve(db, name) == Ok::<Option<Seq<char>>, Seq<Seq<char>>>(
                                    Some(k@),
                                ));
                                let full = match limits.max_packages {
                                    Some(mx) => keys.len() >= mx,
                                    None => false,
                                };
                                if full {
                                    proof {
                                        lemma_walked_is_discovered(db, root_key@, ks0, ds0);
                                        assert(!expanded(db, ks0, ks0[cur as int]));
                                        assert(!closed(db, ks0));
                                        assert(!has_room(limits, ks0.len()));
                                    }
                                    return Ok(Closure { keys, depths: key_depths, complete: false });
                                }
                                proof {
                                    lemma_resolve_is_key(db, name);
                                    let grown = ks0.push(k@);
                                    assert forall|a: int, b: int|
                                        0 <= a < grown.len() && 0 <= b < grown.len() && a
                                            != b implies grown[a] != grown[b] by {
                                        if a == ks0.len() {
                                            assert(ks0[b] != k@);
                                        } else if b == ks0.len() {
                                            assert(ks0[a] != k@);
                                        }
                                    }
                                    let tail = grown.skip(1);
                                    assert forall|a: int, b: int|
                                        0 <= a < tail.len() && 0 <= b < tail.len() && a
                                            != b implies tail[a] != tail[b] by {
                                        assert(grown[a + 1] != grown[b + 1]);
                                    }
                                    assert forall|i: int| 0 <= i < tail.len() implies stored_keys(
                                        db,
                                    ).contains(#[trigger] tail[i]) by {
                                        if i + 1 < ks0.len() {
                                            assert(tail[i] == ks0[i + 1]);
                                        } else {
                                            assert(tail[i] == k@);
                                        }
                                    }
                                    lemma_distinct_within(tail, stored_keys(db));
                                    assert(edge(db, cur_key, k@));
                                }
                                let ghost stack0 = stack@;
                                keys.push(k);
                                key_depths.push(depth + 1);
                                stack.push(keys.len() - 1);
                                proof {
                                    let ks1 = texts(keys@);
                                    let ds1 = key_depths@;
                                    assert(ks1 =~= ks0.push(k@));
                                    assert(ds1 =~= ds0.push((depth + 1) as usize));
                                    assert forall|z: int| 1 <= z < ks1.len() implies #[trigger] step_into(
                                        db,
                                        ks1,
                                        ds1,
                                        z,
                                    ) by {
                                        if z < ks0.len() {
                                            assert(step_into(db, ks0, ds0, z));
                                            let m = choose|m: int|
                                                0 <= m < z && edge(db, #[trigger] ks0[m], ks0[z])
                                                    && ds0[z] == ds0[m] + 1;
                                            assert(ks1[m] == ks0[m] && ks1[z] == ks0[z]);
                                            assert(ds1[m] == ds0[m] && ds1[z] == ds0[z]);
                                        } else {
                                            assert(ks1[cur as int] == cur_key);
                                            assert(ds1[cur as int] == depth);
                                            assert(ks1[z] == k@);
                                            assert(ds1[z] == depth + 1);
                                        }
                                    }
                                    assert(ks1.contains(k@)) by {
                                        assert(ks1[ks0.len() as int] == k@);
                                    }
                                    lemma_expanded_grows(db, ks0, k@);
                                    assert forall|m: int|
                                        0 <= m < keys.len() && m != cur && !stack@.contains(
                                            m as usize,
                                        ) && within_depth(limits, ds1[m]) implies expanded(
                                        db,
                                        ks1,
                                        #[trigger] ks1[m],
                                    ) by {
                                        if m == ks0.len() {
                                            assert(stack@[stack@.len() - 1] == m);
                                        } else {
                                            assert(ks1[m] == ks0[m]);
                                            assert(ds1[m] == ds0[m]);
                                            assert(!stack0.contains(m as usize)) by {
                                                if stack0.contains(m as usize) {
                                                    let x = choose|x: int|
                                                        0 <= x < stack0.len() && stack0[x]
                                                            == m as usize;
                                                    assert(stack@[x] == m as usize);
                                                }
                                            }
                                            assert(expanded(db, ks0, ks0[m]));
                                        }
                                    }
                                    assert forall|i: int| 0 <= i <= j implies match #[trigger] resolve(
                                        db,
                                        texts(names@)[i],
                                    ) {
                                        Ok(Some(t)) => ks1.contains(t),
                                        Ok(None) => true,
                                        Err(_) => false,
                                    } by {
                                        if i < j {
                                            if let Ok(Some(t)) = resolve(db, texts(names@)[i]) {
                                                let c = choose|c: int|
                                                    0 <= c < ks0.len() && ks0[c] == t;
                                                assert(ks1[c] == t);
                                            }
                                        }
                                    }
                                }
                            }
                        },
                    }
                    j += 1;
                }
                proof {
                    let ks = texts(keys@);
                    assert(expanded(db, ks, cur_key)) by {
                        assert forall|n: Seq<char>| reexports_of(db, cur_key).contains(n) implies match #[trigger] resolve(
                            db,
                            n,
                        ) {
                            Ok(Some(t)) => ks.contains(t),
                            Ok(None) => true,
                            Err(_) => false,
                        } by {
                            let i = choose|i: int|
                                0 <= i < texts(names@).len() && texts(names@)[i] == n;
                            assert(resolve(db, texts(names@)[i]) == resolve(db, n));
                        }
                    }
                }
            }
        }
        proof {
            lemma_walked_is_discovered(db, root_key@, texts(keys@), key_depths@);
            let ks = texts(keys@);
            assert forall|m: int|
                0 <= m < ks.len() && within_depth(limits, key_depths@[m]) implies expanded(
                db,
                ks,
                #[trigger] ks[m],
            ) by {
                assert(!stack@.contains(m as usize));
            }
        }
        // What was not looked into may still hold only what is listed.
        let mut m: usize = 0;
        while m < keys.len()
            invariant
                m <= keys.len(),
                key_depths.len() == keys.len(),
                self.wf(),
                db == self@,
                walked(db, root_key@, texts(keys@), key_depths@),
                discovered(db, root_key@, texts(keys@)),
                forall|k: int|
                    0 <= k < keys.len() ==> (limits.max_depth matches Some(d) ==> (
                    #[trigger] key_depths@[k]) <= d),
                limits.max_packages matches Some(mx) ==> keys.len() <= mx || keys.len() == 1,
                forall|i: int|
                    0 <= i < keys.len() && within_depth(limits, key_depths@[i]) ==> expanded(
                        db,
                        texts(keys@),
                        #[trigger] texts(keys@)[i],
                    ),
                forall|i: int| 0 <= i < m ==> expanded(db, texts(keys@), #[trigger] texts(keys@)[i]),
            decreases keys.len() - m,
        {
            let looked = match limits.max_depth {
                Some(d) => key_depths[m] < d,
                None => true,
            };
            assert(texts(keys@)[m as int] == keys@[m as int]@);
            if !looked && !self.is_expanded(&keys, keys[m].as_str()) {
                assert(!closed(db, texts(keys@)));
                return Ok(Closure { keys, depths: key_depths, complete: false });
            }
            m += 1;
        }
        Ok(Closure { keys, depths: key_depths, complete: true })
    }

    /// The keys of all stored packages, in catalog order.
    pub fn list_crate_keys(&self) -> (r: Vec<String>)
        ensures
            self.wf(),
            texts(r@) == self@.map_values(|p: PackageView| p.key),
    {
        proof {
            use_type_invariant(&*self);
        }
        let mut out: Vec<String> = Vec::new();
        let mut i: usize = 0;
        while i < self.packages.len()
            invariant
                i <= self.packages.len(),
                self@ == row_views(self.packages@),
                texts(out@) == self@.map_values(|p: PackageView| p.key).take(i as int),
            decreases self.packages.len() - i,
        {
            let ghost before = out@;
            out.push(self.packages[i].key.clone());
            assert(texts(out@) =~= texts(before).push(self.packages@[i as int].key@));
            assert(texts(out@) =~= self@.map_values(|p: PackageView| p.key).take(i + 1));
            i += 1;
        }
        assert(self@.map_values(|p: PackageView| p.key).take(self@.len() as int)
            == self@.map_values(|p: PackageView| p.key));
        out
    }
}

/// Whether `key` is `name`, a hyphen, and a version that starts with a digit.
pub fn is_version_key(key: &Vec<char>, name: &Vec<char>) -> (r: bool)
    ensures
        r == is_version_of(key@, name@),
{
    let kl = key.len();
    let nl = name.len();
    if kl < 2 || kl - 2 < nl {
        return false;
    }
    has_prefix(key, name) && key[name.len()] == '-' && char_is_digit(key[name.len() + 1])
}

/// A copy of a slice of strings.
pub fn copy_texts(v: &[String]) -> (r: Vec<String>)
    ensures
        texts(r@) == texts(v@),
{
    let mut out: Vec<String> = Vec::new();
    let mut i: usize = 0;
    while i < v.len()
        invariant
            i <= v.len(),
            texts(out@) == texts(v@).take(i as int),
        decreases v.len() - i,
    {
        let ghost before = out@;
        out.push(v[i].clone());
        assert(texts(out@) =~= texts(before).push(v@[i as int]@));
        assert(texts(out@) =~= texts(v@).take(i + 1));
        i += 1;
    }
    assert(texts(v@).take(v.len() as int) == texts(v@));
    out
}

/// Puts `key` into the sorted list `sorted`.
fn insert_key(sorted: &mut Vec<String>, key: String)
    ensures
        texts(final(sorted)@) == insert_sorted(texts(old(sorted)@), key@),
{
    let wanted = to_chars(key.as_str());
    let mut i: usize = sorted.len();
    let mut go = true;
    while go && i > 0
        invariant
            i <= sorted.len(),
            sorted@ == old(sorted)@,
            wanted@ == key@,
            forall|j: int| i <= j < sorted.len() ==> lex_less(key@, #[trigger] texts(sorted@)[j]),
            !go ==> i > 0 && !lex_less(key@, texts(sorted@)[i - 1]),
        decreases
                i + if go {
                    1int
                } else {
                    0int
                },
    {
        let before = to_chars(sorted[i - 1].as_str());
        if chars_less(&wanted, &before) {
            i -= 1;
        } else {
            go = false;
        }
    }
    proof {
        lemma_insert_at(texts(sorted@), key@, i as int);
    }
    sorted.insert(i, key);
    assert(texts(sorted@) =~= texts(old(sorted)@).insert(i as int, key@));
}

/// The texts of `v` in the order of dictionaries.
pub fn sort_texts(v: &Vec<String>) -> (r: Vec<String>)
    ensures
        texts(r@) == sorted_keys(texts(v@)),
{
    let mut out: Vec<String> = Vec::new();
    let mut i: usize = 0;
    assert(texts(out@) =~= sorted_keys(texts(v@).take(0)));
    while i < v.len()
        invariant
            i <= v.len(),
            texts(out@) == sorted_keys(texts(v@).take(i as int)),
        decreases v.len() - i,
    {
        let ghost t = texts(v@);
        assert(t.take(i + 1).drop_last() == t.take(i as int));
        assert(t.take(i + 1).last() == v@[i as int]@);
        insert_key(&mut out, v[i].clone());
        i += 1;
    }
    assert(texts(v@).take(v.len() as int) == texts(v@));
    out
}

/// Whether `name` is among `v`.
pub fn contains_text(v: &Vec<String>, name: &str) -> (r: bool)
    ensures
        r == texts(v@).contains(name@),
{
    let mut i: usize = 0;
    while i < v.len()
        invariant
            i <= v.len(),
            forall|k: int| 0 <= k < i ==> texts(v@)[k] != name@,
        decreases v.len() - i,
    {
        if *v[i].as_str() == *name {
            assert(texts(v@)[i as int] == name@);
            return true;
        }
        i += 1;
    }
    false
}

/// Whether no text occurs twice in `v`.
pub fn all_distinct(v: &Vec<String>) -> (r: bool)
    ensures
        r == texts(v@).no_duplicates(),
{
    let mut j: usize = 0;
    while j < v.len()
        invariant
            j <= v.len(),
            forall|a: int, b: int| 0 <= a < b < j ==> texts(v@)[a] != texts(v@)[b],
        decreases v.len() - j,
    {
        let mut a: usize = 0;
        while a < j
            invariant
                a <= j < v.len(),
                forall|k: int| 0 <= k < a ==> texts(v@)[k] != texts(v@)[j as int],
            decreases j - a,
        {
            if v[a] == v[j] {
                assert(texts(v@)[a as int] == texts(v@)[j as int]);
                return false;
            }
            a += 1;
        }
        j += 1;
    }
    assert forall|a: int, b: int|
        0 <= a < texts(v@).len() && 0 <= b < texts(v@).len() && a != b implies texts(v@)[a]
        != texts(v@)[b] by {
        if a < b {
            assert(texts(v@)[a] != texts(v@)[b]);
        } else {
            assert(texts(v@)[b] != texts(v@)[a]);
        }
    }
    true
}

} // verus!
