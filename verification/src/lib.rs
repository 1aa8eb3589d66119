//! A verified pipeline that turns a user's public posts on a federated
//! social-media server into a static diary page.
//!
//! The library holds the logic of the pipeline: resolving a profile URL,
//! paginating through a timeline, filtering posts that carry the diary
//! marker, normalising and decoding their text, grouping entries by
//! calendar day, and substituting the rendered blocks into a template.
//! Network and file I/O stay outside; the library works on plain values.

pub mod chars;
pub mod config;
pub mod errors;
pub mod extract;
pub mod fetch;
pub mod jsonio;
pub mod numfmt;
pub mod pipeline;
pub mod profile;
pub mod render;
pub mod timefmt;
