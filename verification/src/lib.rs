//! Core engine for server-side real-time collaborative editing: a message
//! dispatch pipeline that hands client revisions to a per-document session
//! manager in arrival order, and an access-controlled storage facade that
//! fronts the collab cache, the snapshot controller and the access-control
//! policy table.

pub mod access;
pub mod actor;
pub mod cache;
pub mod entities;
pub mod envelope;
pub mod errors;
pub mod hashing;
pub mod session;
pub mod snapshot;
pub mod storage;
pub mod user;

pub use errors::AppError;
pub use errors::CollabAction;
