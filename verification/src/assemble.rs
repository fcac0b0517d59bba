//! Joining raw record collections with the category catalog.
//!
//! Each raw record carries the runs of one category. Assembly looks the
//! record's category id up in the catalog — an unknown id is a
//! consistency break between two calls to the same source and fails the
//! whole assembly — keeps the record only when the category's kind
//! matches the requested one, and normalizes every contained run,
//! preserving the source order of categories and of entries throughout.

use vstd::prelude::*;

use crate::catalog::{Catalog, CategoryKind, CategoryView};
use crate::error::Error;
use crate::run::{normalize_run, normalize_run_spec, RawRun, RawRunView, Run, RunView};

verus! {

/// One placed run of a raw record.
#[derive(Debug, Clone, PartialEq)]
pub struct RawRunEntry {
    pub place: u64,
    pub run: RawRun,
}

/// The mathematical shadow of a [`RawRunEntry`].
pub struct RawRunEntryView {
    pub place: u64,
    pub run: RawRunView,
}

impl View for RawRunEntry {
    type V = RawRunEntryView;

    open spec fn view(&self) -> RawRunEntryView {
        RawRunEntryView { place: self.place, run: self.run@ }
    }
}

impl DeepView for RawRunEntry {
    type V = RawRunEntryView;

    open spec fn deep_view(&self) -> RawRunEntryView {
        self.view()
    }
}

/// A raw per-category record as the records payload carries it.
#[derive(Debug, Clone, PartialEq)]
pub struct RawRecord {
    pub game: String,
    pub weblink: String,
    pub category: String,
    pub runs: Vec<RawRunEntry>,
}

/// The mathematical shadow of a [`RawRecord`].
pub struct RawRecordView {
    pub game: Seq<char>,
    pub weblink: Seq<char>,
    pub category: Seq<char>,
    pub runs: Seq<RawRunEntryView>,
}

impl View for RawRecord {
    type V = RawRecordView;

    open spec fn view(&self) -> RawRecordView {
        RawRecordView {
            game: self.game@,
            weblink: self.weblink@,
            category: self.category@,
            runs: self.runs.deep_view(),
        }
    }
}

impl DeepView for RawRecord {
    type V = RawRecordView;

    open spec fn deep_view(&self) -> RawRecordView {
        self.view()
    }
}

/// A normalized run paired with its place on the leaderboard.
#[derive(Debug, Clone, PartialEq)]
pub struct LeaderboardEntry {
    pub place: u64,
    pub run: Run,
}

/// The mathematical shadow of a [`LeaderboardEntry`].
pub struct LeaderboardEntryView {
    pub place: u64,
    pub run: RunView,
}

impl View for LeaderboardEntry {
    type V = LeaderboardEntryView;

    open spec fn view(&self) -> LeaderboardEntryView {
        LeaderboardEntryView { place: self.place, run: self.run@ }
    }
}

impl DeepView for LeaderboardEntry {
    type V = LeaderboardEntryView;

    open spec fn deep_view(&self) -> LeaderboardEntryView {
        self.view()
    }
}

/// The ranked runs of one category, ready to render. The order of
/// `entries` mirrors the source order — ascending by placement — and is
/// never resorted.
#[derive(Debug, Clone, PartialEq)]
pub struct CategoryLeaderboard {
    pub game_id: String,
    pub category_id: String,
    pub category_name: String,
    pub entries: Vec<LeaderboardEntry>,
}

/// The mathematical shadow of a [`CategoryLeaderboard`].
pub struct CategoryLeaderboardView {
    pub game_id: Seq<char>,
    pub category_id: Seq<char>,
    pub category_name: Seq<char>,
    pub entries: Seq<LeaderboardEntryView>,
}

impl View for CategoryLeaderboard {
    type V = CategoryLeaderboardView;

    open spec fn view(&self) -> CategoryLeaderboardView {
        CategoryLeaderboardView {
            game_id: self.game_id@,
            category_id: self.category_id@,
            category_name: self.category_name@,
            entries: self.entries.deep_view(),
        }
    }
}

impl DeepView for CategoryLeaderboard {
    type V = CategoryLeaderboardView;

    open spec fn deep_view(&self) -> CategoryLeaderboardView {
        self.view()
    }
}

/// The leaderboard entries a record's runs normalize to, in source
/// order; the first inconsistent run fails the whole record.
pub open spec fn normalize_entries_spec(runs: Seq<RawRunEntryView>) -> Result<
    Seq<LeaderboardEntryView>,
    Error,
>
    decreases runs.len(),
{
    if runs.len() == 0 {
        Ok(Seq::empty())
    } else {
        match normalize_entries_spec(runs.drop_last()) {
            Err(e) => Err(e),
            Ok(front) => match normalize_run_spec(runs.last().run) {
                Err(e) => Err(e),
                Ok(r) => Ok(front.push(LeaderboardEntryView { place: runs.last().place, run: r })),
            },
        }
    }
}

/// What one record contributes to the assembly: a failure when its
/// category id is unknown, nothing when the category's kind is not the
/// requested one, and otherwise its leaderboard.
pub open spec fn assemble_record_spec(
    r: RawRecordView,
    catalog: Map<Seq<char>, CategoryView>,
    kind: CategoryKind,
) -> Result<Option<CategoryLeaderboardView>, Error> {
    if !catalog.contains_key(r.category) {
        Err(Error::UnknownCategory)
    } else if catalog[r.category].kind != kind {
        Ok(None)
    } else {
        match normalize_entries_spec(r.runs) {
            Err(e) => Err(e),
            Ok(entries) => Ok(
                Some(
                    CategoryLeaderboardView {
                        game_id: r.game,
                        category_id: r.category,
                        category_name: catalog[r.category].name,
                        entries,
                    },
                ),
            ),
        }
    }
}

/// The leaderboards the whole record collection assembles to, in source
/// order, holding exactly the records whose category matches the
/// requested kind.
pub open spec fn assemble_spec(
    records: Seq<RawRecordView>,
    catalog: Map<Seq<char>, CategoryView>,
    kind: CategoryKind,
) -> Result<Seq<CategoryLeaderboardView>, Error>
    decreases records.len(),
{
    if records.len() == 0 {
        Ok(Seq::empty())
    } else {
        match assemble_spec(records.drop_last(), catalog, kind) {
            Err(e) => Err(e),
            Ok(front) => match assemble_record_spec(records.last(), catalog, kind) {
                Err(e) => Err(e),
                Ok(None) => Ok(front),
                Ok(Some(lb)) => Ok(front.push(lb)),
            },
        }
    }
}

/// A failure in some prefix of the runs fails the whole list.
proof fn lemma_entries_prefix_err(s: Seq<RawRunEntryView>, j: int)
    requires
        0 <= j <= s.len(),
        normalize_entries_spec(s.take(j)) is Err,
    ensures
        normalize_entries_spec(s) == normalize_entries_spec(s.take(j)),
    decreases s.len() - j,
{
    if j < s.len() {
        assert(s.take(j + 1).drop_last() =~= s.take(j));
        lemma_entries_prefix_err(s, j + 1);
    } else {
        assert(s.take(j) =~= s);
    }
}

/// Normalize every placed run of one record, in source order.
pub fn normalize_entries(runs: &Vec<RawRunEntry>) -> (res: Result<Vec<LeaderboardEntry>, Error>)
    ensures
        match res {
            Ok(es) => normalize_entries_spec(runs.deep_view()) == Ok::<_, Error>(es.deep_view()),
            Err(e) => normalize_entries_spec(runs.deep_view()) == Err::<
                Seq<LeaderboardEntryView>,
                _,
            >(e),
        },
{
    let ghost rv = runs.deep_view();
    let mut out: Vec<LeaderboardEntry> = Vec::new();
    let mut i: usize = 0;
    proof {
        assert(rv.take(0) =~= Seq::<RawRunEntryView>::empty());
        assert(out.deep_view() =~= Seq::<LeaderboardEntryView>::empty());
    }
    while i < runs.len()
        invariant
            i <= runs.len(),
            rv == runs.deep_view(),
            normalize_entries_spec(rv.take(i as int)) == Ok::<_, Error>(out.deep_view()),
        decreases runs.len() - i,
    {
        proof {
            assert(rv.take(i + 1).drop_last() =~= rv.take(i as int));
            assert(rv.take(i + 1).last() == rv[i as int]);
        }
        match normalize_run(&runs[i].run) {
            Ok(r) => {
                out.push(LeaderboardEntry { place: runs[i].place, run: r });
                proof {
                    assert(out.deep_view() =~= normalize_entries_spec(rv.take(i + 1)).unwrap());
                }
            },
            Err(e) => {
                proof {
                    lemma_entries_prefix_err(rv, i + 1);
                }
                return Err(e);
            },
        }
        i += 1;
    }
    proof {
        assert(rv.take(runs.len() as int) =~= rv);
    }
    Ok(out)
}

/// Assemble what one record contributes, against the catalog.
fn assemble_record(r: &RawRecord, catalog: &Catalog, kind: CategoryKind) -> (res: Result<
    Option<CategoryLeaderboard>,
    Error,
>)
    ensures
        match res {
            Ok(Some(lb)) => assemble_record_spec(r@, catalog@, kind) == Ok::<_, Error>(
                Some(lb@),
            ),
            Ok(None) => assemble_record_spec(r@, catalog@, kind) == Ok::<
                Option<CategoryLeaderboardView>,
                Error,
            >(None),
            Err(e) => assemble_record_spec(r@, catalog@, kind) == Err::<
                Option<CategoryLeaderboardView>,
                _,
            >(e),
        },
{
    let cat = match catalog.get(r.category.as_str()) {
        Some(c) => c,
        None => {
            return Err(Error::UnknownCategory);
        },
    };
    if cat.kind != kind {
        return Ok(None);
    }
    let entries = match normalize_entries(&r.runs) {
        Ok(es) => es,
        Err(e) => {
            return Err(e);
        },
    };
    let name = cat.name.clone();
    Ok(
        Some(
            CategoryLeaderboard {
                game_id: r.game.clone(),
                category_id: r.category.clone(),
                category_name: name,
                entries,
            },
        ),
    )
}

/// A failure in some prefix of the records fails the whole assembly.
proof fn lemma_assemble_prefix_err(
    s: Seq<RawRecordView>,
    catalog: Map<Seq<char>, CategoryView>,
    kind: CategoryKind,
    j: int,
)
    requires
        0 <= j <= s.len(),
        assemble_spec(s.take(j), catalog, kind) is Err,
    ensures
        assemble_spec(s, catalog, kind) == assemble_spec(s.take(j), catalog, kind),
    decreases s.len() - j,
{
    if j < s.len() {
        assert(s.take(j + 1).drop_last() =~= s.take(j));
        lemma_assemble_prefix_err(s, catalog, kind, j + 1);
    } else {
        assert(s.take(j) =~= s);
    }
}

/// Join the raw records with the catalog, keeping the categories of the
/// requested kind, their order and their entries' order as the source
/// gave them.
pub fn assemble(records: &Vec<RawRecord>, catalog: &Catalog, kind: CategoryKind) -> (res: Result<
    Vec<CategoryLeaderboard>,
    Error,
>)
    ensures
        match res {
            Ok(ls) => assemble_spec(records.deep_view(), catalog@, kind) == Ok::<_, Error>(
                ls.deep_view(),
            ),
            Err(e) => assemble_spec(records.deep_view(), catalog@, kind) == Err::<
                Seq<CategoryLeaderboardView>,
                _,
            >(e),
        },
{
    let ghost rv = records.deep_view();
    let mut out: Vec<CategoryLeaderboard> = Vec::new();
    let mut i: usize = 0;
    proof {
        assert(rv.take(0) =~= Seq::<RawRecordView>::empty());
        assert(out.deep_view() =~= Seq::<CategoryLeaderboardView>::empty());
    }
    while i < records.len()
        invariant
            i <= records.len(),
            rv == records.deep_view(),
            assemble_spec(rv.take(i as int), catalog@, kind) == Ok::<_, Error>(out.deep_view()),
        decreases records.len() - i,
    {
        proof {
            assert(rv.take(i + 1).drop_last() =~= rv.take(i as int));
            assert(rv.take(i + 1).last() == rv[i as int]);
        }
        match assemble_record(&records[i], catalog, kind) {
            Ok(Some(lb)) => {
                out.push(lb);
                proof {
                    assert(out.deep_view() =~= assemble_spec(
                        rv.take(i + 1),
                        catalog@,
                        kind,
                    ).unwrap());
                }
            },
            Ok(None) => {},
            Err(e) => {
                proof {
                    lemma_assemble_prefix_err(rv, catalog@, kind, i + 1);
                }
                return Err(e);
            },
        }
        i += 1;
    }
    proof {
        assert(rv.take(records.len() as int) =~= rv);
    }
    Ok(out)
}

/// Assembly succeeds when every record's category id is known to the
/// catalog and every contained run is well formed: unknown ids and
/// inconsistent runs are the only ways it can fail.
pub proof fn lemma_assemble_ok(
    records: Seq<RawRecordView>,
    catalog: Map<Seq<char>, CategoryView>,
    kind: CategoryKind,
)
    requires
        forall|i: int| 0 <= i < records.len() ==> catalog.contains_key(
            #[trigger] records[i].category,
        ),
        forall|i: int| 0 <= i < records.len() ==> normalize_entries_spec(
            #[trigger] records[i].runs,
        ) is Ok,
    ensures
        assemble_spec(records, catalog, kind) is Ok,
    decreases records.len(),
{
    if records.len() > 0 {
        assert(forall|i: int|
            0 <= i < records.drop_last().len() ==> #[trigger] records.drop_last()[i]
                == records[i]);
        lemma_assemble_ok(records.drop_last(), catalog, kind);
        assert(records.last() == records[records.len() - 1]);
    }
}

/// A record that references a category id the catalog does not know
/// fails the whole assembly with [`Error::UnknownCategory`] — no partial
/// output is produced — provided every contained run is well formed (a
/// malformed run standing earlier in the collection would fail first,
/// with its own error).
pub proof fn lemma_unknown_category_fails(
    records: Seq<RawRecordView>,
    catalog: Map<Seq<char>, CategoryView>,
    kind: CategoryKind,
)
    requires
        exists|i: int| 0 <= i < records.len() && !catalog.contains_key(
            #[trigger] records[i].category,
        ),
        forall|i: int| 0 <= i < records.len() ==> normalize_entries_spec(
            #[trigger] records[i].runs,
        ) is Ok,
    ensures
        assemble_spec(records, catalog, kind) == Err::<Seq<CategoryLeaderboardView>, Error>(
            Error::UnknownCategory,
        ),
    decreases records.len(),
{
    assert(forall|i: int|
        0 <= i < records.drop_last().len() ==> #[trigger] records.drop_last()[i] == records[i]);
    assert forall|i: int| 0 <= i < records.drop_last().len() implies normalize_entries_spec(
        #[trigger] records.drop_last()[i].runs,
    ) is Ok by {
        assert(records.drop_last()[i] == records[i]);
    }
    if exists|i: int|
        0 <= i < records.len() - 1 && !catalog.contains_key(#[trigger] records[i].category) {
        let w = choose|i: int|
            0 <= i < records.len() - 1 && !catalog.contains_key(#[trigger] records[i].category);
        assert(records.drop_last()[w] == records[w]);
        assert(!catalog.contains_key(records.drop_last()[w].category));
        lemma_unknown_category_fails(records.drop_last(), catalog, kind);
    } else {
        assert(forall|i: int|
            0 <= i < records.len() - 1 ==> catalog.contains_key(#[trigger] records[i].category));
        assert forall|i: int| 0 <= i < records.drop_last().len() implies catalog.contains_key(
            #[trigger] records.drop_last()[i].category,
        ) by {
            assert(records.drop_last()[i] == records[i]);
        }
        lemma_assemble_ok(records.drop_last(), catalog, kind);
        let w = choose|i: int|
            0 <= i < records.len() && !catalog.contains_key(#[trigger] records[i].category);
        assert(w == records.len() - 1);
        assert(records.last() == records[records.len() - 1]);
    }
}

} // verus!
