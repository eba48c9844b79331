//! Verification of identity tokens against a provider's published key set,
//! and the category model shared by the request handlers.
pub mod category;
pub mod error;
pub mod token;
pub mod jwks;
pub mod claims;
pub mod verification;
pub mod cache;
pub mod cache_control;
