//! Absolute URLs and references resolved against them.
//!
//! Parsing and resolving are done by the `url` crate. This module gives what
//! it returns a name, so that the playlist readers can say exactly which
//! address they hand out.

use vstd::prelude::*;

verus! {

#[verifier::external_type_specification]
#[verifier::external_body]
pub struct ExParseError(url::ParseError);

/// The text of the absolute URL that `reference` denotes when it is read
/// against the absolute URL `base`; `None` where `base` is no absolute URL
/// or `reference` cannot be resolved against it.
pub uninterp spec fn resolved_url(base: Seq<char>, reference: Seq<char>) -> Option<Seq<char>>;

/// The normalised text of the absolute URL that `text` writes; `None` where
/// `text` is no absolute URL.
pub uninterp spec fn parsed_url(text: Seq<char>) -> Option<Seq<char>>;

/// `Url::parse` on `base`, then `Url::join` with `reference`: the
/// serialization of the URL that comes out is `resolved_url` of the two
/// texts, and an error comes back exactly where that is `None`.
#[verifier::external_body]
pub(crate) fn join_url(base: &str, reference: &str) -> (r: Result<String, url::ParseError>)
    ensures
        match r {
            Ok(joined) => resolved_url(base@, reference@) == Some(joined@),
            Err(_) => resolved_url(base@, reference@) is None,
        },
{
    let parsed = url::Url::parse(base)?;
    parsed.join(reference).map(String::from)
}

/// `Url::parse` on `text`: the serialization of the URL that comes out is
/// `parsed_url` of the text, and an error comes back exactly where that is
/// `None`.
#[verifier::external_body]
pub(crate) fn parse_url(text: &str) -> (r: Result<String, url::ParseError>)
    ensures
        match r {
            Ok(normal) => parsed_url(text@) == Some(normal@),
            Err(_) => parsed_url(text@) is None,
        },
{
    url::Url::parse(text).map(String::from)
}

/// The segments of the path of the absolute URL that `text` writes, as
/// they stand between its slashes, percent-encoded; `None` where `text` is
/// no absolute URL or is one whose path has no segments (as that of
/// `mailto:` and `data:` addresses).
pub uninterp spec fn url_path_segments(text: Seq<char>) -> Option<Seq<Seq<char>>>;

/// The names and values in the query of the absolute URL that `text` writes,
/// in order and decoded; `None` where `text` is no absolute URL.
pub uninterp spec fn url_query_pairs(text: Seq<char>) -> Option<Seq<(Seq<char>, Seq<char>)>>;

/// The views of the strings held in `strings`.
pub open spec fn string_views(strings: Seq<String>) -> Seq<Seq<char>> {
    Seq::new(strings.len(), |i: int| strings[i]@)
}

/// The views of the pairs of strings held in `pairs`.
pub open spec fn pair_views(pairs: Seq<(String, String)>) -> Seq<(Seq<char>, Seq<char>)> {
    Seq::new(pairs.len(), |i: int| (pairs[i].0@, pairs[i].1@))
}

/// `Url::parse` on `text`, then `Url::path_segments`, each segment copied
/// into a string: these are `url_path_segments` of the text. `Ok(None)`
/// says that the URL has no path segments, an error that the text is no
/// absolute URL.
#[verifier::external_body]
pub(crate) fn path_segments(text: &str) -> (r: Result<Option<Vec<String>>, url::ParseError>)
    ensures
        match r {
            Ok(Some(segments)) => url_path_segments(text@) == Some(string_views(segments@)),
            Ok(None) => url_path_segments(text@) is None,
            Err(_) => url_path_segments(text@) is None,
        },
{
    let parsed = url::Url::parse(text)?;
    Ok(parsed.path_segments().map(|segments| segments.map(String::from).collect()))
}

/// `Url::parse` on `text`, then `Url::query_pairs`, each name and value
/// copied into a string: these are `url_query_pairs` of the text. An error
/// says that the text is no absolute URL.
#[verifier::external_body]
pub(crate) fn query_pairs(text: &str) -> (r: Result<Vec<(String, String)>, url::ParseError>)
    ensures
        match r {
            Ok(pairs) => url_query_pairs(text@) == Some(pair_views(pairs@)),
            Err(_) => url_query_pairs(text@) is None,
        },
{
    let parsed = url::Url::parse(text)?;
    Ok(parsed.query_pairs().into_owned().collect())
}

} // verus!
