//! URL parts as the `url` crate (re-exported by `azure_core::http`) computes them.
//!
//! A URL is held as its text. Each function below parses the text with
//! `azure_core::http::Url::parse` and returns one part of the parsed URL, or `None`
//! when the text is not a URL. What the `url` crate computes is named, not restated;
//! each contract also says that it fails exactly when parsing fails.

use vstd::prelude::*;

verus! {

/// The serialization of the URL that `Url::parse` reads from `text`, or `None` when it
/// reads none.
pub uninterp spec fn url_serialization_of(text: Seq<char>) -> Option<Seq<char>>;

/// `Url::host_str` of the parsed URL.
pub uninterp spec fn url_host_of(text: Seq<char>) -> Option<Option<Seq<char>>>;

/// `Url::path` of the parsed URL.
pub uninterp spec fn url_path_of(text: Seq<char>) -> Option<Seq<char>>;

/// `Url::scheme` of the parsed URL.
pub uninterp spec fn url_scheme_of(text: Seq<char>) -> Option<Seq<char>>;

/// `Url::query_pairs` of the parsed URL: the parameters of its query as the `url`
/// crate reads them (split at `&`, `+` read as a space, percent-decoded), in order.
pub uninterp spec fn url_query_pairs_of(text: Seq<char>) -> Option<Seq<(Seq<char>, Seq<char>)>>;

/// The serialization of the parsed URL after `Url::set_query(Some(query))`.
pub uninterp spec fn url_with_query_of(text: Seq<char>, query: Seq<char>) -> Option<Seq<char>>;

/// The serialization of the parsed URL after `path_segments_mut().push(segment)`, or
/// `None` when the text is not a URL or the URL cannot be a base.
pub uninterp spec fn url_with_segment_of(text: Seq<char>, segment: Seq<char>) -> Option<
    Seq<char>,
>;

/// Parses `text` with `Url::parse` and returns `Url::as_str` of the result. The
/// contract names the result; it does not say which texts are URLs.
#[verifier::external_body]
pub(crate) fn url_serialization(text: &str) -> (r: Option<String>)
    ensures
        match r {
            Some(s) => url_serialization_of(text@) == Some(s@),
            None => url_serialization_of(text@) is None,
        },
{
    azure_core::http::Url::parse(text).ok().map(|u| u.as_str().to_string())
}

/// Parses `text` and returns `Url::host_str`. The contract names the host; it
/// states only that `None` comes exactly when parsing fails.
#[verifier::external_body]
pub(crate) fn url_host(text: &str) -> (r: Option<Option<String>>)
    ensures
        match r {
            Some(Some(h)) => url_host_of(text@) == Some(Some(h@)),
            Some(None) => url_host_of(text@) == Some(None::<Seq<char>>),
            None => url_host_of(text@) is None,
        },
        r is None <==> url_serialization_of(text@) is None,
{
    let u = azure_core::http::Url::parse(text).ok()?;
    Some(u.host_str().map(|h| h.to_string()))
}

/// Parses `text` and returns `Url::path`. The contract names the path; it states only
/// that `None` comes exactly when parsing fails.
#[verifier::external_body]
pub(crate) fn url_path(text: &str) -> (r: Option<String>)
    ensures
        match r {
            Some(p) => url_path_of(text@) == Some(p@),
            None => url_path_of(text@) is None,
        },
        r is None <==> url_serialization_of(text@) is None,
{
    let u = azure_core::http::Url::parse(text).ok()?;
    Some(u.path().to_string())
}

/// Parses `text` and returns `Url::scheme`. The contract names the scheme; it states
/// only that `None` comes exactly when parsing fails.
#[verifier::external_body]
pub(crate) fn url_scheme(text: &str) -> (r: Option<String>)
    ensures
        match r {
            Some(s) => url_scheme_of(text@) == Some(s@),
            None => url_scheme_of(text@) is None,
        },
        r is None <==> url_serialization_of(text@) is None,
{
    let u = azure_core::http::Url::parse(text).ok()?;
    Some(u.scheme().to_string())
}

/// Parses `text` and returns `Url::query_pairs`, each name and value as an owned
/// string. The contract names the parameters; it states only that `None` comes exactly
/// when parsing fails.
#[verifier::external_body]
pub(crate) fn url_query_pairs(text: &str) -> (r: Option<Vec<(String, String)>>)
    ensures
        match r {
            Some(v) => url_query_pairs_of(text@) == Some(
                v@.map_values(|p: (String, String)| (p.0@, p.1@)),
            ),
            None => url_query_pairs_of(text@) is None,
        },
        r is None <==> url_serialization_of(text@) is None,
{
    let u = azure_core::http::Url::parse(text).ok()?;
    Some(u.query_pairs().map(|(k, v)| (k.into_owned(), v.into_owned())).collect())
}

/// Parses `text`, replaces its query with `Url::set_query(Some(query))` and returns the
/// serialization. The contract names the result and states that `None` comes exactly
/// when parsing fails. It also states that the new URL, read again, has the scheme, the
/// path and (when there is one) the host of the old: `set_query` rewrites the
/// serialization only from the query on, and the crate's own invariant check
/// (`Url::check_invariants`) holds that a serialization parses back to the same parts,
/// except that a URL without a host may read back with an empty one. What the query
/// reads as is not stated.
#[verifier::external_body]
pub(crate) fn url_with_query(text: &str, query: &str) -> (r: Option<String>)
    ensures
        match r {
            Some(s) => url_with_query_of(text@, query@) == Some(s@),
            None => url_with_query_of(text@, query@) is None,
        },
        r is None <==> url_serialization_of(text@) is None,
        r is Some ==> url_scheme_of(r->0@) == url_scheme_of(text@) && url_path_of(r->0@)
            == url_path_of(text@),
        (r is Some && url_host_of(text@) matches Some(Some(_))) ==> url_host_of(r->0@)
            == url_host_of(text@),
{
    let mut u = azure_core::http::Url::parse(text).ok()?;
    u.set_query(Some(query));
    Some(u.as_str().to_string())
}

/// Parses `text`, appends one path segment with `Url::path_segments_mut` and
/// `PathSegmentsMut::push`, and returns the serialization; `None` when the text is not
/// a URL or the URL cannot be a base. The contract names the result.
#[verifier::external_body]
pub(crate) fn url_with_segment(text: &str, segment: &str) -> (r: Option<String>)
    ensures
        match r {
            Some(s) => url_with_segment_of(text@, segment@) == Some(s@),
            None => url_with_segment_of(text@, segment@) is None,
        },
{
    let mut u = azure_core::http::Url::parse(text).ok()?;
    u.path_segments_mut().ok()?.push(segment);
    Some(u.as_str().to_string())
}

} // verus!
