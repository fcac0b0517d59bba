//! Selecting the preferred video link of a run.
//!
//! The upstream service lists a lower-resolution mirror first and the
//! primary link second, so of two candidates the second is preferred;
//! a single candidate is taken as it is. No candidates, or more than
//! two — an ambiguity the service is not expected to produce — degrade
//! gracefully to the empty string, never to an error.

use vstd::prelude::*;

verus! {

/// The preferred URI among the candidates: the only one, the second of
/// two, and the empty string otherwise.
pub open spec fn select_video_spec(uris: Seq<Seq<char>>) -> Seq<char> {
    if uris.len() == 1 {
        uris[0]
    } else if uris.len() == 2 {
        uris[1]
    } else {
        Seq::empty()
    }
}

/// Select the preferred video URI among a run's candidates.
pub fn select_video(uris: &Vec<String>) -> (r: String)
    ensures
        r@ == select_video_spec(uris.deep_view()),
{
    if uris.len() == 1 {
        uris[0].clone()
    } else if uris.len() == 2 {
        uris[1].clone()
    } else {
        String::new()
    }
}

} // verus!
