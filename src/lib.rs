//! Authorization decisions over flat, tenant-scoped permission grants.
//!
//! The library holds the relation/permission model, the decision procedures
//! (point check, accessible-resource listing, effective permissions) written
//! as resumable state machines that ask the caller for store lookups, and the
//! small value types that travel between the permission store and the engine,
//! together with the reading of caller identity from request metadata, the
//! decoding of request fields, and the plain settings types.
pub mod relations;
pub mod text;
pub mod time;
pub mod store;
pub mod engine;
pub mod checker;
pub mod context;
pub mod config;
pub mod requests;
