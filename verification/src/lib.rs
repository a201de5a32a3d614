//! A multi-tenant document repository with role-based access control.
//!
//! The repository stores user profiles, document metadata and document
//! payload chunks in three keyed maps. A pure policy engine decides, from
//! the caller's role and a document's access level, whether a read or an
//! upload is permitted. Every operation is verified against a mathematical
//! model of the store.

pub mod docid;
pub mod laws;
pub mod model;
pub mod policy;
pub mod store;
pub mod types;
