//! Core of a client for a public tweet syndication endpoint: a deterministic
//! access-token deriver, a tolerant decoder for the endpoint's JSON response
//! shapes, and the pure request/response logic around them. Network transport
//! is left to the caller.

pub mod client;
pub mod codec;
pub mod encode;
pub mod json;
pub mod token;
pub mod tweet;
