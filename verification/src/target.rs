//! The address a request is forwarded to: the route's upstream followed by
//! the path and query that the client asked for.

use vstd::prelude::*;
use vstd::string::*;

verus! {

/// Whether `axum::http::Uri` can be parsed from `text`.
pub uninterp spec fn uri_accepts(text: Seq<char>) -> bool;

/// Parses `text` with `<axum::http::Uri as std::str::FromStr>::from_str` and
/// tells whether it succeeded. The parser reads nothing but the bytes of
/// `text`, so the answer is the same for the same text; which texts it
/// takes is left to `uri_accepts`.
#[verifier::external_body]
fn parses_as_uri(text: &str) -> (accepted: bool)
    ensures
        accepted == uri_accepts(text@),
{
    text.parse::<axum::http::Uri>().is_ok()
}

/// The path taken for a request that names none.
pub open spec fn default_path() -> Seq<char> {
    "/"@
}

/// The text of the target: scheme, upstream address, then the path and
/// query of the request, or `/` where the request has none.
pub open spec fn target_text(upstream: Seq<char>, path_and_query: Option<Seq<char>>) -> Seq<char> {
    "http://"@ + upstream + match path_and_query {
        Some(path) => path,
        None => default_path(),
    }
}

/// The path and query of a request as a plain sequence, if it has one.
pub open spec fn path_view(path_and_query: Option<&str>) -> Option<Seq<char>> {
    match path_and_query {
        Some(path) => Some(path@),
        None => None,
    }
}

/// A target that is no URI: the route's upstream address is misconfigured.
#[derive(Clone, Debug, PartialEq, Eq)]
pub struct MalformedTarget {
    /// The text that was refused.
    pub text: String,
}

/// Writes out the target of a request.
pub fn target_uri(upstream: &str, path_and_query: Option<&str>) -> (text: String)
    ensures
        text@ == target_text(upstream@, path_view(path_and_query)),
{
    let mut text = String::from_str("http://");
    text.append(upstream);
    match path_and_query {
        Some(path) => text.append(path),
        None => text.append("/"),
    }
    text
}

/// Keeps a target that was accepted as a URI and refuses one that was not.
pub fn checked_target(text: String, accepted: bool) -> (result: Result<String, MalformedTarget>)
    ensures
        accepted ==> result == Ok::<String, MalformedTarget>(text),
        !accepted ==> result == Err::<String, MalformedTarget>(MalformedTarget { text }),
{
    if accepted {
        Ok(text)
    } else {
        Err(MalformedTarget { text })
    }
}

/// The target of a request, provided that it is a URI.
pub fn rewrite_target(upstream: &str, path_and_query: Option<&str>) -> (result: Result<
    String,
    MalformedTarget,
>)
    ensures
        match result {
            Ok(text) => text@ == target_text(upstream@, path_view(path_and_query))
                && uri_accepts(text@),
            Err(refused) => refused.text@ == target_text(upstream@, path_view(path_and_query))
                && !uri_accepts(refused.text@),
        },
{
    let text = target_uri(upstream, path_and_query);
    let accepted = parses_as_uri(text.as_str());
    checked_target(text, accepted)
}

} // verus!
