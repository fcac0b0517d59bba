//! Resolving a game search into usable summaries.
//!
//! A search result element carries a link list of `{rel, uri}` pairs.
//! A game is usable downstream only with both its `records` and its
//! `categories` endpoint URI; an element lacking either fails the whole
//! resolution with [`Error::MissingEndpoint`] — the policy here is to
//! fail fast rather than silently drop the malformed element — and an
//! empty search result fails with [`Error::EmptyResultSet`].

use vstd::prelude::*;

use crate::error::Error;
use crate::strutil::str_eq;

verus! {

/// One `{rel, uri}` pair of a search result element's link list.
#[derive(Debug, Clone, PartialEq)]
pub struct Link {
    pub rel: String,
    pub uri: String,
}

/// The mathematical shadow of a [`Link`].
pub struct LinkView {
    pub rel: Seq<char>,
    pub uri: Seq<char>,
}

impl View for Link {
    type V = LinkView;

    open spec fn view(&self) -> LinkView {
        LinkView { rel: self.rel@, uri: self.uri@ }
    }
}

impl DeepView for Link {
    type V = LinkView;

    open spec fn deep_view(&self) -> LinkView {
        self.view()
    }
}

/// A raw game as the search payload carries it.
#[derive(Debug, Clone, PartialEq)]
pub struct RawGame {
    pub abbreviation: String,
    pub name: String,
    pub released: u16,
    pub links: Vec<Link>,
}

/// The mathematical shadow of a [`RawGame`].
pub struct RawGameView {
    pub abbreviation: Seq<char>,
    pub name: Seq<char>,
    pub released: u16,
    pub links: Seq<LinkView>,
}

impl View for RawGame {
    type V = RawGameView;

    open spec fn view(&self) -> RawGameView {
        RawGameView {
            abbreviation: self.abbreviation@,
            name: self.name@,
            released: self.released,
            links: self.links.deep_view(),
        }
    }
}

impl DeepView for RawGame {
    type V = RawGameView;

    open spec fn deep_view(&self) -> RawGameView {
        self.view()
    }
}

/// A search result element reduced to what drives the assembly: names,
/// release year, and the two endpoint URIs. Immutable after construction.
#[derive(Debug, Clone, PartialEq)]
pub struct GameSummary {
    pub abbreviation: String,
    pub display_name: String,
    pub release_year: u16,
    pub records_uri: String,
    pub categories_uri: String,
}

/// The mathematical shadow of a [`GameSummary`].
pub struct GameSummaryView {
    pub abbreviation: Seq<char>,
    pub display_name: Seq<char>,
    pub release_year: u16,
    pub records_uri: Seq<char>,
    pub categories_uri: Seq<char>,
}

impl View for GameSummary {
    type V = GameSummaryView;

    open spec fn view(&self) -> GameSummaryView {
        GameSummaryView {
            abbreviation: self.abbreviation@,
            display_name: self.display_name@,
            release_year: self.release_year,
            records_uri: self.records_uri@,
            categories_uri: self.categories_uri@,
        }
    }
}

impl DeepView for GameSummary {
    type V = GameSummaryView;

    open spec fn deep_view(&self) -> GameSummaryView {
        self.view()
    }
}

/// The URI of the first link whose relation reads `rel`, or `None` when
/// no link does.
pub open spec fn find_link_spec(links: Seq<LinkView>, rel: Seq<char>) -> Option<Seq<char>>
    decreases links.len(),
{
    if links.len() == 0 {
        None
    } else if links[0].rel == rel {
        Some(links[0].uri)
    } else {
        find_link_spec(links.drop_first(), rel)
    }
}

/// The summary one search result element resolves to; an element whose
/// link list lacks a `records` or `categories` relation is unusable.
pub open spec fn summarize_game_spec(g: RawGameView) -> Result<GameSummaryView, Error> {
    match find_link_spec(g.links, "records"@) {
        None => Err(Error::MissingEndpoint),
        Some(records_uri) => match find_link_spec(g.links, "categories"@) {
            None => Err(Error::MissingEndpoint),
            Some(categories_uri) => Ok(
                GameSummaryView {
                    abbreviation: g.abbreviation,
                    display_name: g.name,
                    release_year: g.released,
                    records_uri,
                    categories_uri,
                },
            ),
        },
    }
}

/// The summaries of every element, in order; the first unusable element
/// fails the whole list.
pub open spec fn summarize_all_spec(results: Seq<RawGameView>) -> Result<
    Seq<GameSummaryView>,
    Error,
>
    decreases results.len(),
{
    if results.len() == 0 {
        Ok(Seq::empty())
    } else {
        match summarize_all_spec(results.drop_last()) {
            Err(e) => Err(e),
            Ok(front) => match summarize_game_spec(results.last()) {
                Err(e) => Err(e),
                Ok(s) => Ok(front.push(s)),
            },
        }
    }
}

/// What a search resolves to: a failure on an empty result set, a
/// failure on the first element lacking an endpoint, and otherwise every
/// element's summary in source order.
pub open spec fn resolve_games_spec(results: Seq<RawGameView>) -> Result<
    Seq<GameSummaryView>,
    Error,
> {
    if results.len() == 0 {
        Err(Error::EmptyResultSet)
    } else {
        summarize_all_spec(results)
    }
}

/// The URI of the first link with this relation.
fn find_link<'a>(links: &'a Vec<Link>, rel: &str) -> (res: Option<&'a String>)
    ensures
        match res {
            Some(u) => find_link_spec(links.deep_view(), rel@) == Some(u@),
            None => find_link_spec(links.deep_view(), rel@) is None,
        },
{
    let ghost lv = links.deep_view();
    let mut i: usize = 0;
    proof {
        assert(lv.skip(0) =~= lv);
    }
    while i < links.len()
        invariant
            i <= links.len(),
            lv == links.deep_view(),
            find_link_spec(lv, rel@) == find_link_spec(lv.skip(i as int), rel@),
        decreases links.len() - i,
    {
        proof {
            assert(lv.skip(i as int)[0] == lv[i as int]);
            assert(lv.skip(i as int).drop_first() =~= lv.skip(i + 1));
        }
        if str_eq(links[i].rel.as_str(), rel) {
            return Some(&links[i].uri);
        }
        i += 1;
    }
    proof {
        assert(lv.skip(links.len() as int) =~= Seq::<LinkView>::empty());
    }
    None
}

/// Resolve one search result element to its summary.
pub fn summarize_game(g: &RawGame) -> (res: Result<GameSummary, Error>)
    ensures
        crate::error::res_view(res) == summarize_game_spec(g@),
{
    let records_uri = match find_link(&g.links, "records") {
        Some(u) => u.clone(),
        None => {
            return Err(Error::MissingEndpoint);
        },
    };
    let categories_uri = match find_link(&g.links, "categories") {
        Some(u) => u.clone(),
        None => {
            return Err(Error::MissingEndpoint);
        },
    };
    Ok(GameSummary {
        abbreviation: g.abbreviation.clone(),
        display_name: g.name.clone(),
        release_year: g.released,
        records_uri,
        categories_uri,
    })
}

/// A failure in some prefix of the elements fails the whole list.
proof fn lemma_summarize_prefix_err(s: Seq<RawGameView>, j: int)
    requires
        0 <= j <= s.len(),
        summarize_all_spec(s.take(j)) is Err,
    ensures
        summarize_all_spec(s) == summarize_all_spec(s.take(j)),
    decreases s.len() - j,
{
    if j < s.len() {
        assert(s.take(j + 1).drop_last() =~= s.take(j));
        lemma_summarize_prefix_err(s, j + 1);
    } else {
        assert(s.take(j) =~= s);
    }
}

/// Every element summarizes exactly when each one carries both
/// endpoints: there is no other way for [`summarize_all_spec`] to fail.
proof fn lemma_summarize_all_ok(results: Seq<RawGameView>)
    ensures
        summarize_all_spec(results) is Ok <==> (forall|i: int|
            0 <= i < results.len() ==> summarize_game_spec(#[trigger] results[i]) is Ok),
    decreases results.len(),
{
    if results.len() > 0 {
        lemma_summarize_all_ok(results.drop_last());
        assert(forall|i: int|
            0 <= i < results.drop_last().len() ==> #[trigger] results.drop_last()[i]
                == results[i]);
        assert(results.last() == results[results.len() - 1]);
        if summarize_all_spec(results) is Ok {
            assert forall|i: int| 0 <= i < results.len() implies summarize_game_spec(
                #[trigger] results[i],
            ) is Ok by {
                if i < results.len() - 1 {
                    assert(results[i] == results.drop_last()[i]);
                }
            }
        } else {
            if forall|i: int|
                0 <= i < results.len() ==> summarize_game_spec(#[trigger] results[i]) is Ok {
                assert forall|i: int|
                    0 <= i < results.drop_last().len() implies summarize_game_spec(
                    #[trigger] results.drop_last()[i],
                ) is Ok by {
                    assert(results.drop_last()[i] == results[i]);
                }
                assert(summarize_all_spec(results.drop_last()) is Ok);
                assert(summarize_game_spec(results.last()) is Ok);
                assert(summarize_all_spec(results) is Ok);
            }
        }
    }
}

/// Game resolution succeeds exactly when the search found something and
/// every found element carries both its `records` and its `categories`
/// endpoint.
pub proof fn lemma_resolve_games_ok(results: Seq<RawGameView>)
    ensures
        resolve_games_spec(results) is Ok <==> (results.len() > 0 && (forall|i: int|
            0 <= i < results.len() ==> summarize_game_spec(#[trigger] results[i]) is Ok)),
{
    lemma_summarize_all_ok(results);
}

/// Resolve a game search into summaries, failing fast on an element that
/// lacks a `records` or `categories` endpoint and on an empty result set.
pub fn resolve_games(results: &Vec<RawGame>) -> (res: Result<Vec<GameSummary>, Error>)
    ensures
        match res {
            Ok(gs) => resolve_games_spec(results.deep_view()) == Ok::<_, Error>(gs.deep_view()),
            Err(e) => resolve_games_spec(results.deep_view()) == Err::<Seq<GameSummaryView>, _>(e),
        },
{
    let ghost rv = results.deep_view();
    if results.len() == 0 {
        return Err(Error::EmptyResultSet);
    }
    let mut out: Vec<GameSummary> = Vec::new();
    let mut i: usize = 0;
    proof {
        assert(rv.take(0) =~= Seq::<RawGameView>::empty());
        assert(out.deep_view() =~= Seq::<GameSummaryView>::empty());
    }
    while i < results.len()
        invariant
            i <= results.len(),
            rv == results.deep_view(),
            summarize_all_spec(rv.take(i as int)) == Ok::<_, Error>(out.deep_view()),
        decreases results.len() - i,
    {
        proof {
            assert(rv.take(i + 1).drop_last() =~= rv.take(i as int));
            assert(rv.take(i + 1).last() == rv[i as int]);
        }
        match summarize_game(&results[i]) {
            Ok(s) => {
                out.push(s);
                proof {
                    assert(out.deep_view() =~= summarize_all_spec(rv.take(i + 1)).unwrap());
                }
            },
            Err(e) => {
                proof {
                    lemma_summarize_prefix_err(rv, i + 1);
                }
                return Err(e);
            },
        }
        i += 1;
    }
    proof {
        assert(rv.take(results.len() as int) =~= rv);
    }
    Ok(out)
}

} // verus!
