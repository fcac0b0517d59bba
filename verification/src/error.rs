//! The failure taxonomy of the normalization layer.
//!
//! Structural inconsistencies between cross-referenced resources are fatal
//! to the enclosing normalization call and surface as a typed failure;
//! they are never patched over with default values.

use vstd::prelude::*;

verus! {

/// Why a normalization call failed.
#[derive(Clone, Copy, Debug, PartialEq, Eq, Structural)]
pub enum Error {
    /// A run's player reference list is empty, or a reference lacks the
    /// field its `rel` tag requires (`id` for a user, `name` for a guest).
    MalformedPlayerReference,
    /// A record references a category id the catalog does not know about.
    UnknownCategory,
    /// A game's link list lacks a `records` or `categories` relation.
    MissingEndpoint,
    /// A run's duration string is not a well-formed ISO-8601 duration.
    DurationParseFailure,
    /// A game search returned no results at all.
    EmptyResultSet,
}

/// A fallible result, with its payload replaced by the payload's view.
pub open spec fn res_view<T: View>(r: Result<T, Error>) -> Result<T::V, Error> {
    match r {
        Ok(t) => Ok(t@),
        Err(e) => Err(e),
    }
}

} // verus!
