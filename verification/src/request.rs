//! Parsing the query of a request target, and a request that does so once.

use vstd::prelude::*;
use vstd::std_specs::cmp::PartialEqSpec;
use crate::query::{decoded, Query};
use crate::target::RequestTarget;

verus! {

/// The mapping that the query of a request target decodes to.
pub open spec fn parsed(target: RequestTarget) -> Map<Seq<char>, Seq<Seq<char>>> {
    decoded(target.spec_raw_query())
}

/// Parses the query of a request target. Every target has a query: one
/// whose form carries no query component, or whose path does not parse, has
/// the empty one.
pub fn parse(target: &RequestTarget) -> (query: Query)
    ensures
        query@ == parsed(*target),
        target is Authority || target is Star ==> query@ == Map::<Seq<char>, Seq<Seq<char>>>::empty(),
{
    Query::decode(target.raw_query())
}

/// Parsing is a function of the target: two queries parsed from the same
/// target hold the same names with the same values, and compare equal.
pub proof fn lemma_parse_repeatable(target: RequestTarget, first: Query, second: Query)
    requires
        first@ == parsed(target),
        second@ == parsed(target),
    ensures
        first@ == second@,
        first.eq_spec(&second),
{
}

/// The form of a target matters only through the raw query component that
/// it gives: two targets with the same component have the same query.
pub proof fn lemma_form_is_immaterial(one: RequestTarget, other: RequestTarget)
    requires
        one.spec_raw_query() == other.spec_raw_query(),
    ensures
        parsed(one) == parsed(other),
{
}

/// A target in authority form or asterisk form has the empty query.
pub proof fn lemma_no_query_without_component(target: RequestTarget)
    requires
        target is Authority || target is Star,
    ensures
        parsed(target) == Map::<Seq<char>, Seq<Seq<char>>>::empty(),
        parsed(target).len() == 0,
{
}

/// Access to the parsed query of a request.
pub trait QueryString {
    /// The target that the request was made for.
    spec fn origin(&self) -> RequestTarget;

    /// The query of the request's target. The request itself stays what it
    /// was: every call gives the same query.
    fn query(&mut self) -> (query: &Query)
        ensures
            query@ == parsed(old(self).origin()),
            final(self).origin() == old(self).origin(),
    ;
}

/// A request, as far as its query is concerned: the target it was made for,
/// and the query of that target once it has been asked for.
pub struct Request {
    target: RequestTarget,
    cached: Option<Query>,
}

impl Request {
    /// A query that is kept is the query of the target.
    #[verifier::type_invariant]
    spec fn well_formed(&self) -> bool {
        match self.cached {
            Some(query) => query@ == parsed(self.target),
            None => true,
        }
    }

    /// A request for `target`, its query not yet parsed.
    pub fn new(target: RequestTarget) -> (request: Request)
        ensures
            request.origin() == target,
            !request.is_parsed(),
    {
        Request { target, cached: None }
    }

    /// Whether the query has been parsed and is kept.
    pub closed spec fn is_parsed(&self) -> bool {
        self.cached is Some
    }
}

impl QueryString for Request {
    closed spec fn origin(&self) -> RequestTarget {
        self.target
    }

    fn query(&mut self) -> (query: &Query)
        ensures
            final(self).is_parsed(),
    {
        proof {
            use_type_invariant(&*self);
        }
        if self.cached.is_none() {
            self.cached = Some(parse(&self.target));
        }
        self.cached.as_ref().unwrap()
    }
}

} // verus!
