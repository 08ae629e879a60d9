//! The request kinds of the upload collaborator's HTTP API, as unit types,
//! and the marker traits that say which kinds carry a body. The transport
//! layer around the library builds the actual requests; here the kinds only
//! classify, so that a call site can demand "a kind that carries a body"
//! (or forbids one) at the type level.

use vstd::prelude::*;

verus! {

/// The GET request kind.
pub struct GET;

/// The POST request kind.
pub struct POST;

/// The PUT request kind.
pub struct PUT;

/// The DELETE request kind.
pub struct DELETE;

/// Request kinds that carry a payload body.
pub trait RequiresBody {

}

/// Request kinds that must not carry a payload body.
pub trait ForbiddenBody {

}

impl RequiresBody for POST {

}

impl RequiresBody for PUT {

}

impl ForbiddenBody for GET {

}

impl ForbiddenBody for DELETE {

}

} // verus!
