//! A JSON-RPC gateway core: per-method middleware chains (parameter
//! injection, response caching, upstream forwarding), the subscription
//! relay lifecycle and the method registry, each stated and proved.
//!
//! JSON values are carried as their serialized text, one `String` per
//! parameter, so that the logic can compare and rearrange them.

pub mod cache;
pub mod error;
pub mod inject;
pub mod chain;
pub mod laws;
pub mod subscription;
pub mod registry;
pub mod gateway;
