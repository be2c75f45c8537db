//! A secret-management client library: byte-string secrets are stored under
//! string identifiers in a remote table, each value protected at rest by
//! per-secret envelope encryption under a master key held by a remote
//! key-management service.
//!
//! The storage and key-service backends are abstracted as traits so that the
//! engine's create/overwrite/delete semantics and the envelope-encryption
//! protocol are verified once, for every backend that meets the contracts.

pub mod dynamo;
pub mod encryption;
pub mod keyservice;
pub mod kms;
pub mod laws;
pub mod record;
pub mod squirrel;
pub mod store;
pub mod table;
