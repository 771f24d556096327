//! A small document-store CRUD service core.
//!
//! The library holds the verified logic of an HTTP service over a single
//! document collection: identifier validation, the schemas and the semantics
//! of partial updates, a model of the collection with the store's documented
//! read/write behaviour, the per-route decision logic, and the fixed
//! group/average/count report. The unverifiable surroundings (the HTTP
//! runtime, the database driver, configuration and shutdown) live outside the
//! library and hand it plain values.

pub mod object_id;
pub mod schema;
pub mod stats;
pub mod store;
pub mod response;
pub mod handlers;
pub mod game;
pub mod game_store;
pub mod greeting;
