//! Error taxonomy of the service: lookup misses, duplicate identifiers on
//! insert, and credential failures, each with its HTTP status code.

use vstd::prelude::*;

verus! {

/// Failure of a recipe store operation.
#[derive(Clone, Copy, Debug, PartialEq, Eq, Structural)]
pub enum RecipeError {
    /// A lookup found no matching recipe, whatever the cause.
    NotFound,
    /// An insert used an identifier that already exists.
    Conflict,
}

impl RecipeError {
    /// The HTTP status code this error is reported with.
    pub fn status(&self) -> (code: u16)
        ensures
            *self is NotFound ==> code == 404,
            *self is Conflict ==> code == 400,
    {
        match self {
            RecipeError::NotFound => 404,
            RecipeError::Conflict => 400,
        }
    }
}

/// Failure of credential issuance or verification.
#[derive(Clone, Copy, Debug, PartialEq, Eq, Structural)]
pub enum AuthError {
    /// The authorization header is missing or malformed.
    InvalidToken,
    /// Signing the claim failed; a server fault, not a client error.
    TokenCreation,
    /// Registration or claim verification failed; deliberately does not
    /// say which part was wrong.
    Registration,
}

impl AuthError {
    /// The HTTP status code this error is reported with.
    pub fn status(&self) -> (code: u16)
        ensures
            *self is InvalidToken ==> code == 401,
            *self is TokenCreation ==> code == 500,
            *self is Registration ==> code == 401,
    {
        match self {
            AuthError::InvalidToken => 401,
            AuthError::TokenCreation => 500,
            AuthError::Registration => 401,
        }
    }

    /// The client-visible message for this error.
    ///
    /// The two credential rejections share one message: the response must
    /// not reveal whether the header was malformed, the signature bad or
    /// the claim expired. Only the server fault reads differently.
    pub fn message(&self) -> (msg: String)
        ensures
            *self is InvalidToken ==> msg@ == "Invalid credentials"@,
            *self is Registration ==> msg@ == "Invalid credentials"@,
            *self is TokenCreation ==> msg@ == "Token creation error"@,
    {
        match self {
            AuthError::InvalidToken => String::from_str("Invalid credentials"),
            AuthError::Registration => String::from_str("Invalid credentials"),
            AuthError::TokenCreation => String::from_str("Token creation error"),
        }
    }
}

} // verus!
