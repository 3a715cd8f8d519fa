//! The manifest of a package: which packages it declares as dependencies.
//!
//! Only the names are read. A manifest is a table of sections; the
//! dependencies are the names listed in the three dependency sections.

use crate::database::contains_text;
use crate::text::texts;
use vstd::prelude::*;

verus! {

/// One top-level entry of a manifest: its name and, where the entry is a
/// table, the names listed in that table.
pub struct Section {
    pub name: String,
    pub keys: Option<Vec<String>>,
}

/// What a [`Section`] holds, as plain values.
pub struct SectionView {
    pub name: Seq<char>,
    pub keys: Option<Seq<Seq<char>>>,
}

impl View for Section {
    type V = SectionView;

    open spec fn view(&self) -> SectionView {
        SectionView {
            name: self.name@,
            keys: match self.keys {
                Some(k) => Some(texts(k@)),
                None => None,
            },
        }
    }
}

/// The top-level entries of the manifest `content`; `None` where `content`
/// is no manifest.
pub uninterp spec fn manifest_sections(content: Seq<char>) -> Option<Seq<SectionView>>;

/// `toml::Table::from_str`, with the table handed out entry by entry: the
/// parsed manifest, or nothing where the text does not parse. The entries
/// depend on the text alone.
#[verifier::external_body]
fn parse_sections(content: &str) -> (r: Option<Vec<Section>>)
    ensures
        match r {
            Some(s) => manifest_sections(content@) == Some(crate::storage::row_views(s@)),
            None => manifest_sections(content@).is_none(),
        },
{
    let table = content.parse::<toml::Table>().ok()?;
    Some(
        table.iter().map(
            |(name, value)|
                Section {
                    name: name.clone(),
                    keys: match value {
                        toml::Value::Table(t) => Some(t.keys().cloned().collect()),
                        _ => None,
                    },
                },
        ).collect(),
    )
}

/// The names that the section `section` lists: those of the first entry
/// with that name, if it is a table.
pub open spec fn section_keys(sections: Seq<SectionView>, section: Seq<char>) -> Seq<Seq<char>>
    decreases sections.len(),
{
    if sections.len() == 0 {
        Seq::empty()
    } else if sections[0].name == section {
        match sections[0].keys {
            Some(k) => k,
            None => Seq::empty(),
        }
    } else {
        section_keys(sections.drop_first(), section)
    }
}

/// `names` followed by those of `more` that are not yet listed.
pub open spec fn union(names: Seq<Seq<char>>, more: Seq<Seq<char>>) -> Seq<Seq<char>>
    decreases more.len(),
{
    if more.len() == 0 {
        names
    } else {
        let rest = union(names, more.drop_last());
        if rest.contains(more.last()) {
            rest
        } else {
            rest.push(more.last())
        }
    }
}

/// The dependencies that the entries of a manifest declare: the names
/// listed under `dependencies`, `dev-dependencies` and
/// `build-dependencies`, each once.
pub open spec fn dependencies_of(sections: Seq<SectionView>) -> Seq<Seq<char>> {
    union(
        union(
            union(Seq::empty(), section_keys(sections, "dependencies"@)),
            section_keys(sections, "dev-dependencies"@),
        ),
        section_keys(sections, "build-dependencies"@),
    )
}

/// The dependencies that a manifest declares; none without a manifest, and
/// none where the text is no manifest.
pub open spec fn declared_dependencies(manifest: Option<Seq<char>>) -> Seq<Seq<char>> {
    match manifest {
        Some(content) => match manifest_sections(content) {
            Some(sections) => dependencies_of(sections),
            None => Seq::empty(),
        },
        None => Seq::empty(),
    }
}

/// Adds to `names` those of `more` that are not yet listed.
fn add_names(names: &mut Vec<String>, more: &Vec<String>)
    ensures
        texts(final(names)@) == union(texts(old(names)@), texts(more@)),
{
    let mut i: usize = 0;
    assert(texts(more@).take(0) =~= Seq::<Seq<char>>::empty());
    while i < more.len()
        invariant
            i <= more.len(),
            texts(names@) == union(texts(old(names)@), texts(more@).take(i as int)),
        decreases more.len() - i,
    {
        let ghost m = texts(more@);
        assert(m.take(i + 1).drop_last() == m.take(i as int));
        assert(m.take(i + 1).last() == more@[i as int]@);
        if !contains_text(names, more[i].as_str()) {
            let ghost before = names@;
            names.push(more[i].clone());
            assert(texts(names@) =~= texts(before).push(more@[i as int]@));
        }
        i += 1;
    }
    assert(texts(more@).take(more.len() as int) == texts(more@));
}

/// Adds to `names` the names that the section `section` lists.
fn add_section(names: &mut Vec<String>, sections: &Vec<Section>, section: &str)
    ensures
        texts(final(names)@) == union(
            texts(old(names)@),
            section_keys(crate::storage::row_views(sections@), section@),
        ),
{
    let ghost all = crate::storage::row_views(sections@);
    let mut i: usize = 0;
    assert(all.skip(0) == all);
    while i < sections.len()
        invariant
            i <= sections.len(),
            all == crate::storage::row_views(sections@),
            names@ == old(names)@,
            section_keys(all, section@) == section_keys(all.skip(i as int), section@),
        decreases sections.len() - i,
    {
        assert(all.skip(i as int).drop_first() == all.skip(i + 1));
        assert(all.skip(i as int)[0] == sections@[i as int]@);
        if *sections[i].name.as_str() == *section {
            match &sections[i].keys {
                Some(k) => {
                    add_names(names, k);
                },
                None => {},
            }
            return ;
        }
        i += 1;
    }
}

/// The dependencies that the entries of a manifest declare.
pub fn dependencies_from_sections(sections: &Vec<Section>) -> (r: Vec<String>)
    ensures
        texts(r@) == dependencies_of(crate::storage::row_views(sections@)),
{
    let mut names: Vec<String> = Vec::new();
    assert(texts(names@) =~= Seq::<Seq<char>>::empty());
    add_section(&mut names, sections, "dependencies");
    add_section(&mut names, sections, "dev-dependencies");
    add_section(&mut names, sections, "build-dependencies");
    names
}

/// The names that a package declares as direct dependencies, whether for
/// use, for development or for building. `manifest` is the text of the
/// package's manifest; without one, or with a text that is no manifest,
/// there are none.
pub fn parse_cargo_dependencies(manifest: Option<&str>) -> (r: Vec<String>)
    ensures
        texts(r@) == declared_dependencies(
            match manifest {
                Some(m) => Some(m@),
                None => None,
            },
        ),
{
    let parsed = match manifest {
        Some(content) => parse_sections(content),
        None => None,
    };
    match parsed {
        Some(sections) => dependencies_from_sections(&sections),
        None => {
            let r: Vec<String> = Vec::new();
            assert(texts(r@) =~= Seq::<Seq<char>>::empty());
            r
        },
    }
}

} // verus!
