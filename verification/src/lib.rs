//! A static-site compiler for a directory of markdown documents with
//! structured front-matter: it extracts and validates per-document metadata,
//! derives a nested table of contents from the flat heading stream, rewrites
//! image references to their published locations, computes reading time and
//! an automatic description, assembles a date-sorted publish set, and builds
//! the HTML pages and the syndication feed.

pub mod assets;
pub mod blog;
pub mod config;
pub mod date;
pub mod document;
pub mod feed;
pub mod markdown;
pub mod metadata;
pub mod rendering;
pub mod site;
pub mod slugs;
pub mod text;
pub mod toc;
pub mod watch;
pub mod utils;
