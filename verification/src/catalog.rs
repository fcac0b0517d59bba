//! The category catalog: a lookup from category id to category.
//!
//! The categories endpoint hands back a flat list of `{id, name, type}`
//! objects. The catalog keys them by id; a duplicate id — which the
//! unique-keyed source is not expected to produce — overwrites the
//! earlier entry, last one wins.

use vstd::prelude::*;

use crate::strutil::str_eq;

verus! {

/// The kind of a category: a whole-game ruleset, a per-level one, or a
/// miscellaneous one. Any type tag other than `per-game` and `per-level`
/// reads as miscellaneous.
#[derive(Clone, Copy, Debug, PartialEq, Eq, Structural)]
pub enum CategoryKind {
    PerGame,
    PerLevel,
    Misc,
}

/// A raw category as the categories payload carries it, its kind still a
/// free-form type tag.
#[derive(Debug, Clone, PartialEq)]
pub struct RawCategory {
    pub id: String,
    pub name: String,
    pub kind: String,
}

/// The mathematical shadow of a [`RawCategory`].
pub struct RawCategoryView {
    pub id: Seq<char>,
    pub name: Seq<char>,
    pub kind: Seq<char>,
}

impl View for RawCategory {
    type V = RawCategoryView;

    open spec fn view(&self) -> RawCategoryView {
        RawCategoryView { id: self.id@, name: self.name@, kind: self.kind@ }
    }
}

impl DeepView for RawCategory {
    type V = RawCategoryView;

    open spec fn deep_view(&self) -> RawCategoryView {
        self.view()
    }
}

/// A category as the catalog retains it: only the fields needed
/// downstream, the kind decoded.
#[derive(Debug, Clone, PartialEq)]
pub struct Category {
    pub id: String,
    pub name: String,
    pub kind: CategoryKind,
}

/// The mathematical shadow of a [`Category`].
pub struct CategoryView {
    pub id: Seq<char>,
    pub name: Seq<char>,
    pub kind: CategoryKind,
}

impl View for Category {
    type V = CategoryView;

    open spec fn view(&self) -> CategoryView {
        CategoryView { id: self.id@, name: self.name@, kind: self.kind }
    }
}

impl DeepView for Category {
    type V = CategoryView;

    open spec fn deep_view(&self) -> CategoryView {
        self.view()
    }
}

/// The kind a type tag decodes to.
pub open spec fn kind_of(tag: Seq<char>) -> CategoryKind {
    if tag == "per-game"@ {
        CategoryKind::PerGame
    } else if tag == "per-level"@ {
        CategoryKind::PerLevel
    } else {
        CategoryKind::Misc
    }
}

/// Decode a category's free-form type tag.
pub fn parse_kind(tag: &str) -> (k: CategoryKind)
    ensures
        k == kind_of(tag@),
{
    if str_eq(tag, "per-game") {
        CategoryKind::PerGame
    } else if str_eq(tag, "per-level") {
        CategoryKind::PerLevel
    } else {
        CategoryKind::Misc
    }
}

/// The category a raw category normalizes to.
pub open spec fn to_category_spec(r: RawCategoryView) -> CategoryView {
    CategoryView { id: r.id, name: r.name, kind: kind_of(r.kind) }
}

/// The mapping a list of categories builds, keyed by id: a later entry
/// overwrites an earlier one with the same id.
pub open spec fn entries_map(s: Seq<CategoryView>) -> Map<Seq<char>, CategoryView>
    decreases s.len(),
{
    if s.len() == 0 {
        Map::empty()
    } else {
        entries_map(s.drop_last()).insert(s.last().id, s.last())
    }
}

/// The mapping the whole raw category list builds.
pub open spec fn catalog_spec(raws: Seq<RawCategoryView>) -> Map<Seq<char>, CategoryView> {
    entries_map(raws.map_values(|r: RawCategoryView| to_category_spec(r)))
}

/// The catalog of a game's categories, keyed by category id.
#[derive(Debug, Clone, PartialEq)]
pub struct Catalog {
    entries: Vec<Category>,
}

impl View for Catalog {
    type V = Map<Seq<char>, CategoryView>;

    closed spec fn view(&self) -> Map<Seq<char>, CategoryView> {
        entries_map(self.entries.deep_view())
    }
}

/// A position whose id never recurs later in the list keeps its binding
/// in the mapping.
proof fn lemma_entries_map_found(s: Seq<CategoryView>, k: int)
    requires
        0 <= k < s.len(),
        forall|m: int| k < m < s.len() ==> s[m].id != s[k].id,
    ensures
        entries_map(s).contains_key(s[k].id),
        entries_map(s)[s[k].id] == s[k],
    decreases s.len(),
{
    if k < s.len() - 1 {
        assert(forall|m: int| k < m < s.drop_last().len() ==> s.drop_last()[m].id != s
            .drop_last()[k].id);
        lemma_entries_map_found(s.drop_last(), k);
    }
}

/// An id that no entry carries is absent from the mapping.
proof fn lemma_entries_map_absent(s: Seq<CategoryView>, id: Seq<char>)
    requires
        forall|m: int| 0 <= m < s.len() ==> s[m].id != id,
    ensures
        !entries_map(s).contains_key(id),
    decreases s.len(),
{
    if s.len() > 0 {
        lemma_entries_map_absent(s.drop_last(), id);
    }
}

/// Build the catalog from the raw category list of one game.
pub fn build_catalog(raws: &Vec<RawCategory>) -> (c: Catalog)
    ensures
        c@ == catalog_spec(raws.deep_view()),
{
    let ghost rv = raws.deep_view();
    let mut entries: Vec<Category> = Vec::new();
    let mut i: usize = 0;
    while i < raws.len()
        invariant
            i <= raws.len(),
            rv == raws.deep_view(),
            entries@.len() == i,
            forall|m: int|
                0 <= m < i ==> #[trigger] entries@[m].deep_view() == to_category_spec(rv[m]),
        decreases raws.len() - i,
    {
        let r = &raws[i];
        let cat = Category {
            id: r.id.clone(),
            name: r.name.clone(),
            kind: parse_kind(r.kind.as_str()),
        };
        let ghost prev = entries@;
        entries.push(cat);
        proof {
            assert(cat@ == to_category_spec(rv[i as int]));
            assert forall|m: int| 0 <= m < i + 1 implies #[trigger] entries@[m].deep_view()
                == to_category_spec(rv[m]) by {
                if m < i {
                    assert(entries@[m] == prev[m]);
                } else {
                    assert(entries@[m] == cat);
                }
            }
        }
        i += 1;
    }
    proof {
        assert(entries.deep_view() =~= rv.map_values(|r: RawCategoryView| to_category_spec(r)));
    }
    Catalog { entries }
}

impl Catalog {
    /// Look up a category by its id; `None` when the catalog does not
    /// know the id.
    pub fn get(&self, id: &str) -> (res: Option<&Category>)
        ensures
            match res {
                Some(c) => self@.contains_key(id@) && c@ == self@[id@],
                None => !self@.contains_key(id@),
            },
    {
        let ghost dv = self.entries.deep_view();
        let n = self.entries.len();
        let mut k: usize = n;
        while k > 0
            invariant
                k <= n,
                n == self.entries.len(),
                dv == self.entries.deep_view(),
                forall|m: int| k <= m < n ==> dv[m].id != id@,
            decreases k,
        {
            k -= 1;
            if str_eq(self.entries[k].id.as_str(), id) {
                proof {
                    lemma_entries_map_found(dv, k as int);
                }
                return Some(&self.entries[k]);
            }
        }
        proof {
            lemma_entries_map_absent(dv, id@);
        }
        None
    }
}

/// Building the catalog is a pure function of its input: two builds from
/// the same raw categories always yield mappings equal key for key and
/// value for value.
pub proof fn lemma_catalog_build_deterministic(a: Seq<RawCategoryView>, b: Seq<RawCategoryView>)
    requires
        a == b,
    ensures
        catalog_spec(a) == catalog_spec(b),
{
}

} // verus!
