//! Core logic of a multi-repository media store: hierarchical storage-path
//! nodes, magic-byte content-type detection, per-repository resource layout,
//! and a keyset pagination cursor with post-fetch filtering.
//!
//! Filesystem, database and HTTP access stay outside this crate; the logic
//! here is written against plain values and verified.

pub mod result;
pub mod content_type;
pub mod cursor;
pub mod file;
pub mod filter;
pub mod calendar;
pub mod ident;
pub mod manager;
pub mod item;
pub mod repo;
pub mod resource;
pub mod service;
pub mod tag;
pub mod user;
pub mod text;

pub use result::{Error, Res};
