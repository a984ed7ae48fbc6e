//! Query strings of HTTP request targets.
//!
//! A request target is classified by its form, the raw query component is
//! taken from it where the form can carry one, and the component is decoded
//! into a [`Query`]: a mapping from each parameter name to the values that
//! were given for it, in the order in which they were given.

pub mod decoding;
pub mod query;
pub mod request;
pub mod target;

pub use query::Query;
pub use request::{parse, QueryString, Request};
pub use target::RequestTarget;
