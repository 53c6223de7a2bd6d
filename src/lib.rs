//! Parsing and querying of extended M3U playlists.
//!
//! The library turns playlist text into stream records, classifies each
//! record's media reference, and offers filtering, stable sorting, random
//! selection and rendering back to playlist text over the record set.
//! Network access and file handling stay with the caller.

pub mod text;
pub mod language;
pub mod record;
pub mod bindings;
pub mod extract;
pub mod query;
pub mod order;
pub mod render;
pub mod parser;
pub mod laws;
pub mod roundtrip;
