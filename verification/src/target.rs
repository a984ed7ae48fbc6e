//! The forms of a request target, and the raw query component of each.

use vstd::prelude::*;
use crate::decoding::{path_query, split_path};

verus! {

/// A request target, in one of the four forms that HTTP defines, holding of
/// each form what is needed to find the query component.
#[derive(Debug, Clone, PartialEq, Eq)]
pub enum RequestTarget {
    /// Origin form: an absolute path, optionally followed by `?` and a query.
    AbsolutePath(String),
    /// Absolute form: a whole URI. The field is the query component that the
    /// URI carries, still encoded, or `None` where it carries none.
    AbsoluteUri(Option<String>),
    /// Authority form: host and port only.
    Authority(String),
    /// Asterisk form: the literal `*`.
    Star,
}

/// The query component of what the path parser made of an origin-form
/// target: the one it found, and none where it refused the input.
pub open spec fn query_of_split(split: Option<Option<Seq<char>>>) -> Option<Seq<char>> {
    match split {
        Some(query) => query,
        None => None,
    }
}

impl RequestTarget {
    /// The raw query component of the target, still encoded.
    pub open spec fn spec_raw_query(&self) -> Option<Seq<char>> {
        match self {
            RequestTarget::AbsolutePath(path) => query_of_split(path_query(path@)),
            RequestTarget::AbsoluteUri(query) => query.deep_view(),
            RequestTarget::Authority(_) => None,
            RequestTarget::Star => None,
        }
    }

    /// Finds the raw query component. An absolute URI gives the one it
    /// carries, as it is. An absolute path is parsed as a path with an
    /// optional query; a path that does not parse has no query. The other
    /// two forms never have one.
    pub fn raw_query(&self) -> (raw: Option<String>)
        ensures
            raw.deep_view() == self.spec_raw_query(),
            self is Authority || self is Star ==> raw is None,
    {
        match self {
            RequestTarget::AbsolutePath(path) => query_of_parsed_path(split_path(path.as_str())),
            RequestTarget::AbsoluteUri(query) => query.clone(),
            RequestTarget::Authority(_) => None,
            RequestTarget::Star => None,
        }
    }
}

/// The query component of a parsed path. A failure of the parser is not
/// passed on: by the time a target is looked at here it should be well
/// formed, so a path that does not parse counts as one without a query.
pub fn query_of_parsed_path(
    parsed: Result<(Vec<String>, Option<String>, Option<String>), url::ParseError>,
) -> (raw: Option<String>)
    ensures
        raw == match parsed {
            Ok(parts) => parts.1,
            Err(_) => None,
        },
{
    match parsed {
        Ok(parts) => parts.1,
        Err(_) => None,
    }
}

} // verus!
