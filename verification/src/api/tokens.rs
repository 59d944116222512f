//! Payloads of the API-token endpoints.

use vstd::prelude::*;

verus! {

/// A request to create an API token for a namespace.
#[derive(Debug, Clone)]
pub struct CreateTokenRequest {
    pub name: String,
    pub namespace: String,
}

/// A created API token: its access key and, shown only once, its secret.
#[derive(Debug, Clone)]
pub struct CreateTokenResponse {
    pub name: String,
    pub namespace: String,
    pub access_key: String,
    pub secret_key: String,
}

/// A request to delete an API token by name.
#[derive(Debug, Clone)]
pub struct DeleteTokenRequest {
    pub name: String,
}

} // verus!
