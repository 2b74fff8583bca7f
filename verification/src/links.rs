//! URLs, held as text.

use vstd::prelude::*;

verus! {

/// An error of the crate `url`.
#[verifier::external_type_specification]
#[verifier::external_body]
pub struct ExParseError(url::ParseError);

/// What `url::Url::join` makes of a base URL and a reference, each given as text; nothing where
/// the crate `url` refuses one of them.
pub uninterp spec fn joined_url(base: Seq<char>, reference: Seq<char>) -> Option<Seq<char>>;

/// Calls `url::Url::join`: the reference, read against the base URL. The base is a text because
/// that is how the library holds it; `url::Url::parse` reads it first.
#[verifier::external_body]
pub(crate) fn join_url(base: &str, reference: &str) -> (r: Result<String, url::ParseError>)
    ensures
        match r {
            Ok(joined) => joined_url(base@, reference@) == Some(joined@),
            Err(_) => joined_url(base@, reference@) is None,
        },
{
    Ok(url::Url::parse(base)?.join(reference)?.to_string())
}

/// What `url::Url::path_segments` makes of a URL given as text; nothing where the URL cannot be a
/// base, or where the text is no URL.
pub uninterp spec fn path_segments_of(url: Seq<char>) -> Option<Seq<Seq<char>>>;

/// The texts that a list of strings holds.
pub open spec fn texts(list: Seq<String>) -> Seq<Seq<char>> {
    list.map_values(|s: String| s@)
}

/// Calls `url::Url::path_segments`, on what `url::Url::parse` makes of the text. A URL that has
/// segments has at least one, which may be empty.
#[verifier::external_body]
pub(crate) fn path_segments(url: &str) -> (r: Option<Vec<String>>)
    ensures
        match r {
            Some(segments) => {
                &&& path_segments_of(url@) == Some(texts(segments@))
                &&& segments@.len() > 0
            },
            None => path_segments_of(url@) is None,
        },
{
    Some(url::Url::parse(url).ok()?.path_segments()?.map(String::from).collect())
}

} // verus!
