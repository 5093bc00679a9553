//! Local audio caching and metadata for a text-to-speech service: the
//! audio categories and their on-disk names, the file cache's path scheme
//! and size accounting, and the metadata store's tables.

pub mod cache;
pub mod commands;
pub mod credential;
pub mod laws;
pub mod order;
pub mod rows;
pub mod store;
pub mod types;
pub mod wrappers;
