//! Building the free-text game search query.

use vstd::prelude::*;

verus! {

/// What `urlencoding::encode` turns a string into. The encoding is a
/// function of the input characters alone, so it can be named without
/// being written out.
pub uninterp spec fn url_encoded(s: Seq<char>) -> Seq<char>;

/// An ASCII character the encoder passes through unchanged: a letter, a
/// digit, or one of `-`, `_`, `.`, `~`.
pub open spec fn is_unreserved(c: char) -> bool {
    (48 <= c as int && c as int <= 57) || (65 <= c as int && c as int <= 90) || (97 <= c as int
        && c as int <= 122) || c == '-' || c == '_' || c == '.' || c == '~'
}

/// Relies on `urlencoding::encode`: it percent-encodes every byte of the
/// UTF-8 form of `s` outside the unreserved set named by
/// [`is_unreserved`], and leaves unreserved bytes as they are; so an
/// empty input stays empty and an input made only of unreserved
/// characters passes through unchanged.
#[verifier::external_body]
fn url_encode(s: &str) -> (r: String)
    ensures
        r@ == url_encoded(s@),
        s@.len() == 0 ==> r@.len() == 0,
        (forall|i: int| 0 <= i < s@.len() ==> is_unreserved(s@[i])) ==> r@ == s@,
{
    urlencoding::encode(s).into_owned()
}

/// The search endpoint URI for a free-text game title: the fixed query
/// prefix followed by the percent-encoded title.
pub fn games_search_uri(title: &str) -> (r: String)
    ensures
        r@ == "https://speedrun.com/api/v1/games?name="@ + url_encoded(title@),
{
    let mut uri = String::from_str("https://speedrun.com/api/v1/games?name=");
    let encoded = url_encode(title);
    uri.append(encoded.as_str());
    uri
}

} // verus!
