//! The boundary to the `url` crate and to the parts of std that the proofs
//! take on trust. Nothing in this file is proved: each contract states what
//! the called function does, and the rest of the library is proved from it.

use vstd::prelude::*;

verus! {

/// The name/value pairs that `url::form_urlencoded::parse` gives for the
/// bytes of `raw`, in the order in which `raw` holds them.
pub uninterp spec fn form_pairs(raw: Seq<char>) -> Seq<(Seq<char>, Seq<char>)>;

/// What `url::UrlParser::parse_path`, on a parser with the default settings,
/// makes of `path`: `None` where it refuses the input, else the query
/// component that it found, if any.
pub uninterp spec fn path_query(path: Seq<char>) -> Option<Option<Seq<char>>>;

/// `url::ParseError`, the reason for which the parsers of the `url` crate
/// refuse an input. Nothing is claimed of its values: it is only carried.
#[verifier::external_type_specification]
#[verifier::external_body]
pub struct ExParseError(url::ParseError);

/// Calls `url::form_urlencoded::parse` on the bytes of `raw`. The call is a
/// function of the input alone; the contract gives its result the name
/// [`form_pairs`] and claims nothing else of it.
#[verifier::external_body]
pub(crate) fn decode_form(raw: &str) -> (pairs: Vec<(String, String)>)
    ensures
        pairs.deep_view() == form_pairs(raw@),
{
    url::form_urlencoded::parse(raw.as_bytes())
}

/// Calls `url::UrlParser::parse_path` on a parser made by `UrlParser::new`.
/// The call is a function of the input alone; the contract names, as
/// [`path_query`], whether it succeeds and the query component that it
/// returns, and claims nothing of the path segments or the fragment.
#[verifier::external_body]
pub(crate) fn split_path(path: &str) -> (parsed: Result<
    (Vec<String>, Option<String>, Option<String>),
    url::ParseError,
>)
    ensures
        match parsed {
            Ok(parts) => path_query(path@) == Some(parts.1.deep_view()),
            Err(_) => path_query(path@) is None,
        },
{
    url::UrlParser::new().parse_path(path)
}

/// Compares two string slices with `==` of `str`: true exactly when they
/// hold the same characters.
#[verifier::external_body]
pub(crate) fn same_text(a: &str, b: &str) -> (same: bool)
    ensures
        same == (a@ == b@),
{
    a == b
}

} // verus!
