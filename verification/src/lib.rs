//! Verified core of a recipe service: an in-memory recipe store with
//! any-of tag matching and uniform random selection, and a stateless
//! bearer-credential issuer and validator.

pub mod authjwt;
pub mod error;
pub mod recipe;
pub mod web;
