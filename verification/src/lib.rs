//! Verified core of a terminal client for a Zotero library: request
//! construction, configuration handling and the text renderings of items,
//! collections, notes, annotations and tags.

pub mod text;
pub mod paint;
pub mod table;
pub mod types;
pub mod config;
pub mod client;
pub mod output;
pub mod reply;
