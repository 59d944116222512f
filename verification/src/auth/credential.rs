//! The principals a request is authorized as.

use vstd::prelude::*;

verus! {

/// The namespace a request has been authorized for.
#[derive(Debug, Clone)]
pub struct AuthorizedNamespace(pub String);

/// The user (by email) a request authenticated through its `Authorization`
/// header, without a session.
#[derive(Debug, Clone)]
pub struct HeaderAuthedUser(pub String);

} // verus!
