//! Core of a personal web site: a verified document pipeline.
//!
//! The pipeline loads Markdown documents with a YAML frontmatter block,
//! decodes the frontmatter into a typed schema, tracks each document's
//! content as it moves from raw Markdown to rendered HTML, and decodes
//! heterogeneous "links" mappings into an ordered collection.  A small
//! companion module builds `Cache-Control` header values.

pub mod caching;
pub mod errors;
pub mod frontmatter;
pub mod links;
pub mod listing;
pub mod posts;
pub mod render;
pub mod schema;
pub mod text;
pub mod yaml;
