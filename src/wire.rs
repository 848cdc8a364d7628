use vstd::prelude::*;
use crate::identity::Identity;
use crate::token::AuthToken;

verus! {

/// A registration request. `password` is the client-side pre-hash.
#[derive(Debug)]
pub struct RegisterPayload {
    pub username: String,
    pub password: String,
    pub ethaddr: String,
}

/// A sign-in request. `password` is the client-side pre-hash.
#[derive(Debug)]
pub struct SignInPayload {
    pub username: String,
    pub password: String,
}

/// The token issued by a sign-in.
#[derive(Debug, Clone, Copy)]
pub struct SignInResponse {
    pub token: AuthToken,
}

/// A request to resolve (and consume) a token.
#[derive(Debug, Clone, Copy)]
pub struct ValidityCheckPayload {
    pub token: AuthToken,
}

/// The identity a token stood for.
#[derive(Debug, Clone, Copy)]
pub struct ValidityCheckResponse {
    pub uuid: Identity,
}

/// A request for the identity behind a username.
#[derive(Debug)]
pub struct UuidLookupPayload {
    pub username: String,
}

/// The identity behind a username.
#[derive(Debug, Clone, Copy)]
pub struct UuidLookupResponse {
    pub uuid: Identity,
}

/// A request for the display username of an identity.
#[derive(Debug, Clone, Copy)]
pub struct UsernameLookupPayload {
    pub uuid: Identity,
}

/// The display username of an identity.
#[derive(Debug)]
pub struct UsernameLookupResponse {
    pub username: String,
}

} // verus!
