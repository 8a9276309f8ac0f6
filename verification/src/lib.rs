//! Verified core of a Hocuspocus-compatible collaborative editing server:
//! message tags, frame layout, per-document session decisions, server
//! housekeeping decisions and an in-memory document store.

pub mod authenticator;
pub mod client_connection;
pub mod doc_connection;
pub mod hocuspocus;
pub mod lib0;
pub mod payload;
pub mod store;
pub mod sync;
pub mod types;

