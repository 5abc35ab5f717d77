//! Parsing of a brace-delimited markup language into a typed content model:
//! a tag extractor, per-tag element parsers, and a resolver that builds
//! nested pages and blogs, all verified against mathematical models.
pub mod answers;
pub mod code;
pub mod dates;
pub mod elements;
pub mod images;
pub mod laws;
pub mod lookup;
pub mod model;
pub mod paths;
pub mod render;
pub mod resolver;
pub mod tags;
pub mod text;
pub mod watch;
