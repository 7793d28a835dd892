//! A Relay-style cursor pagination engine.
//!
//! The library turns a connection request (`first`/`after`/`last`/`before`,
//! plus the caller's selection of optional metadata fields) into an ordered
//! page of records, opaque cursors, and pagination metadata. Records live in
//! an identifier-ordered store; pages are read as bounded windows of that
//! order, with a deliberate one-row over-fetch on backward paging to detect
//! whether an earlier page exists.

pub mod cursor;
pub mod error;
pub mod model;
pub mod repository;
pub mod service;
pub mod store;
