//! Content resolution and rendering rules of a small personal web site.
//!
//! The library decides; it never touches the file system or the network.
//! Callers hand it what they read (directory listings, file contents) as plain
//! values and carry out what it answers.
//!
//! - `names`, `content_path`: file names and paths as bytes, kept below a root.
//! - `resolver`: from a requested path to the file or directory that answers it.
//! - `metadata`: sidecar records and the listing of a directory.
//! - `file_access`, `render`: what is known of an opened file; Markdown to HTML.
//! - `response`, `routes`: the answers, and each route as a request that
//!   moves by events.

pub mod content_path;
pub mod error;
pub mod file_access;
pub mod metadata;
pub mod names;
pub mod render;
pub mod response;
pub mod routes;
pub mod resolver;
pub mod text;
