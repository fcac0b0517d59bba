//! Resolving player references to display identities.
//!
//! A run credits its players through references that are either a
//! registered-user reference carrying an id, or a guest reference
//! carrying a literal name; the `rel` tag decides which. A reference
//! lacking the field its tag requires, and a run with no references at
//! all, are data-consistency breaks and fail with
//! [`Error::MalformedPlayerReference`] rather than defaulting.

use vstd::prelude::*;

use crate::error::{res_view, Error};
use crate::strutil::str_eq;

verus! {

/// A raw player reference as the records payload carries it.
#[derive(Debug, Clone, PartialEq)]
pub struct PlayerRef {
    pub rel: String,
    pub id: Option<String>,
    pub name: Option<String>,
    pub uri: String,
}

/// The mathematical shadow of a [`PlayerRef`]: every string a sequence of
/// characters.
pub struct PlayerRefView {
    pub rel: Seq<char>,
    pub id: Option<Seq<char>>,
    pub name: Option<Seq<char>>,
    pub uri: Seq<char>,
}

impl View for PlayerRef {
    type V = PlayerRefView;

    open spec fn view(&self) -> PlayerRefView {
        PlayerRefView {
            rel: self.rel@,
            id: self.id.deep_view(),
            name: self.name.deep_view(),
            uri: self.uri@,
        }
    }
}

impl DeepView for PlayerRef {
    type V = PlayerRefView;

    open spec fn deep_view(&self) -> PlayerRefView {
        self.view()
    }
}

/// The one display identity a reference resolves to: a registered user's
/// id, or a guest's literal name.
#[derive(Debug, Clone, PartialEq)]
pub enum PlayerIdentity {
    RegisteredUser { id: String },
    GuestName { name: String },
}

/// The mathematical shadow of a [`PlayerIdentity`].
pub enum PlayerIdentityView {
    RegisteredUser { id: Seq<char> },
    GuestName { name: Seq<char> },
}

impl View for PlayerIdentity {
    type V = PlayerIdentityView;

    open spec fn view(&self) -> PlayerIdentityView {
        match self {
            PlayerIdentity::RegisteredUser { id } => PlayerIdentityView::RegisteredUser {
                id: id@,
            },
            PlayerIdentity::GuestName { name } => PlayerIdentityView::GuestName { name: name@ },
        }
    }
}

impl DeepView for PlayerIdentity {
    type V = PlayerIdentityView;

    open spec fn deep_view(&self) -> PlayerIdentityView {
        self.view()
    }
}

/// The identity one reference resolves to: the user id under the `user`
/// tag, the guest name under any other tag, and a failure when the field
/// the tag requires is absent.
pub open spec fn resolve_ref_spec(r: PlayerRefView) -> Result<PlayerIdentityView, Error> {
    if r.rel == "user"@ {
        match r.id {
            Some(id) => Ok(PlayerIdentityView::RegisteredUser { id }),
            None => Err(Error::MalformedPlayerReference),
        }
    } else {
        match r.name {
            Some(name) => Ok(PlayerIdentityView::GuestName { name }),
            None => Err(Error::MalformedPlayerReference),
        }
    }
}

/// The identity a whole reference list resolves to: that of its first
/// reference; an empty list is a failure.
pub open spec fn resolve_spec(refs: Seq<PlayerRefView>) -> Result<PlayerIdentityView, Error> {
    if refs.len() == 0 {
        Err(Error::MalformedPlayerReference)
    } else {
        resolve_ref_spec(refs[0])
    }
}

/// Resolve one player reference to its display identity.
pub fn resolve_ref(r: &PlayerRef) -> (res: Result<PlayerIdentity, Error>)
    ensures
        res_view(res) == resolve_ref_spec(r@),
{
    if str_eq(r.rel.as_str(), "user") {
        match &r.id {
            Some(id) => Ok(PlayerIdentity::RegisteredUser { id: id.clone() }),
            None => Err(Error::MalformedPlayerReference),
        }
    } else {
        match &r.name {
            Some(name) => Ok(PlayerIdentity::GuestName { name: name.clone() }),
            None => Err(Error::MalformedPlayerReference),
        }
    }
}

/// Resolve a run's reference list to its single display identity: that of
/// the first-listed player, the upstream primary-credit convention.
pub fn resolve(refs: &Vec<PlayerRef>) -> (res: Result<PlayerIdentity, Error>)
    ensures
        res_view(res) == resolve_spec(refs.deep_view()),
{
    if refs.len() == 0 {
        return Err(Error::MalformedPlayerReference);
    }
    resolve_ref(&refs[0])
}

/// The identities of every reference in a list, in order; the first
/// malformed reference fails the whole list.
pub open spec fn resolve_all_spec(refs: Seq<PlayerRefView>) -> Result<
    Seq<PlayerIdentityView>,
    Error,
>
    decreases refs.len(),
{
    if refs.len() == 0 {
        Ok(Seq::empty())
    } else {
        match resolve_all_spec(refs.drop_last()) {
            Err(e) => Err(e),
            Ok(front) => match resolve_ref_spec(refs.last()) {
                Err(e) => Err(e),
                Ok(p) => Ok(front.push(p)),
            },
        }
    }
}

/// A failure in some prefix of the list is the failure of the whole list.
proof fn lemma_resolve_all_prefix_err(s: Seq<PlayerRefView>, j: int)
    requires
        0 <= j <= s.len(),
        resolve_all_spec(s.take(j)) is Err,
    ensures
        resolve_all_spec(s) == resolve_all_spec(s.take(j)),
    decreases s.len() - j,
{
    if j < s.len() {
        assert(s.take(j + 1).drop_last() =~= s.take(j));
        assert(resolve_all_spec(s.take(j + 1)) == resolve_all_spec(s.take(j)));
        lemma_resolve_all_prefix_err(s, j + 1);
    } else {
        assert(s.take(j) =~= s);
    }
}

/// Resolve every reference of a run, in order.
pub fn resolve_all(refs: &Vec<PlayerRef>) -> (res: Result<Vec<PlayerIdentity>, Error>)
    ensures
        match res {
            Ok(ids) => resolve_all_spec(refs.deep_view()) == Ok::<_, Error>(ids.deep_view()),
            Err(e) => resolve_all_spec(refs.deep_view()) == Err::<Seq<PlayerIdentityView>, _>(e),
        },
{
    let ghost rv = refs.deep_view();
    let mut out: Vec<PlayerIdentity> = Vec::new();
    let mut i: usize = 0;
    proof {
        assert(rv.take(0) =~= Seq::<PlayerRefView>::empty());
        assert(out.deep_view() =~= Seq::<PlayerIdentityView>::empty());
    }
    while i < refs.len()
        invariant
            i <= refs.len(),
            rv == refs.deep_view(),
            resolve_all_spec(rv.take(i as int)) == Ok::<_, Error>(out.deep_view()),
        decreases refs.len() - i,
    {
        proof {
            assert(rv.take(i + 1).drop_last() =~= rv.take(i as int));
            assert(rv.take(i + 1).last() == rv[i as int]);
        }
        match resolve_ref(&refs[i]) {
            Ok(p) => {
                out.push(p);
                proof {
                    assert(out.deep_view() =~= resolve_all_spec(rv.take(i + 1)).unwrap());
                }
            },
            Err(e) => {
                proof {
                    lemma_resolve_all_prefix_err(rv, i + 1);
                }
                return Err(e);
            },
        }
        i += 1;
    }
    proof {
        assert(rv.take(refs.len() as int) =~= rv);
    }
    Ok(out)
}

/// The whole list resolves exactly when every reference in it does:
/// there is no other way for [`resolve_all_spec`] to fail.
pub proof fn lemma_resolve_all_ok(refs: Seq<PlayerRefView>)
    ensures
        resolve_all_spec(refs) is Ok <==> (forall|i: int|
            0 <= i < refs.len() ==> resolve_ref_spec(#[trigger] refs[i]) is Ok),
    decreases refs.len(),
{
    if refs.len() > 0 {
        lemma_resolve_all_ok(refs.drop_last());
        assert(forall|i: int|
            0 <= i < refs.drop_last().len() ==> #[trigger] refs.drop_last()[i] == refs[i]);
        assert(refs.last() == refs[refs.len() - 1]);
        if resolve_all_spec(refs) is Ok {
            assert forall|i: int| 0 <= i < refs.len() implies resolve_ref_spec(
                #[trigger] refs[i],
            ) is Ok by {
                if i < refs.len() - 1 {
                    assert(refs[i] == refs.drop_last()[i]);
                }
            }
        } else {
            if forall|i: int| 0 <= i < refs.len() ==> resolve_ref_spec(#[trigger] refs[i]) is Ok {
                assert forall|i: int| 0 <= i < refs.drop_last().len() implies resolve_ref_spec(
                    #[trigger] refs.drop_last()[i],
                ) is Ok by {
                    assert(refs.drop_last()[i] == refs[i]);
                }
                assert(resolve_all_spec(refs.drop_last()) is Ok);
                assert(resolve_ref_spec(refs.last()) is Ok);
                assert(resolve_all_spec(refs) is Ok);
            }
        }
    }
}

/// One well-formed reference, alone in its list, resolves to the
/// registered user's id exactly when its tag reads `user` and an id is
/// present; under any other tag it resolves to the guest's name.
pub proof fn lemma_resolve_single(r: PlayerRefView)
    ensures
        r.rel == "user"@ && r.id is Some ==> resolve_spec(seq![r]) == Ok::<_, Error>(
            PlayerIdentityView::RegisteredUser { id: r.id->0 },
        ),
        r.rel != "user"@ && r.name is Some ==> resolve_spec(seq![r]) == Ok::<_, Error>(
            PlayerIdentityView::GuestName { name: r.name->0 },
        ),
        (r.rel == "user"@ && r.id is None) || (r.rel != "user"@ && r.name is None)
            ==> resolve_spec(seq![r]) == Err::<PlayerIdentityView, _>(
            Error::MalformedPlayerReference,
        ),
{
}

/// An empty reference list never resolves: it always fails with
/// [`Error::MalformedPlayerReference`].
pub proof fn lemma_resolve_empty()
    ensures
        resolve_spec(Seq::<PlayerRefView>::empty()) == Err::<PlayerIdentityView, Error>(
            Error::MalformedPlayerReference,
        ),
{
}

} // verus!
