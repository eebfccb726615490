//! A persistent, content-keyed cache of built container images.
//!
//! Each record lives in its own file under a cache root; the library decides
//! where a record goes, what the file holds and how a file's contents read
//! back, and states as laws how saving and reading relate.

pub mod error;
pub mod json;
pub mod record;
pub mod store;
pub mod images;
