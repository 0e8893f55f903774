//! Query-language compiler and front-matter document model for a personal
//! Markdown search tool.
//!
//! - `query`: compiles query text (`title:foo "a phrase" AND NOT tag:draft`)
//!   into a boolean query tree.
//! - `document`, `front_matter`, `date`: read Markdown files with YAML front
//!   matter into documents, and render them back for storage or disk.
//! - `session`: what each key press does in the interactive query session.
//! - `wiki`: reads the pages of a Wikipedia XML dump into documents.
//! - `text`: character helpers shared by the others.

pub mod text;
pub mod query;
pub mod date;
pub mod front_matter;
pub mod document;
pub mod session;
pub mod wiki;
