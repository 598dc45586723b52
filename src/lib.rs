//! Ingests a textbook volume from its CMS JSON, renders each page to a
//! Markdown document with frontmatter, and reconciles chunk slugs against an
//! embedding store.

pub mod text;
pub mod json;
pub mod model;
pub mod error;
pub mod quiz;
pub mod ingest;
pub mod legacy;
pub mod headings;
pub mod frontmatter;
pub mod render;
pub mod volume;
pub mod healthcheck;
pub mod config;
