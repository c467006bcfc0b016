//! Dependency intelligence for an editor: which packages a build manifest
//! declares and where, what each of them pulls in, what is known to be
//! wrong with any of those, and which finding is shown at which declaration.
//!
//! The library computes on plain values. Reading documents, running build
//! tools and asking vulnerability databases is the caller's part: the caller
//! hands in what those gave and gets back what to ask next and what to show.
//!
//! - [`purl`], [`range`]: package identities and the spans of declarations.
//! - [`parsers`]: the manifests and build reports of Cargo and Maven.
//! - [`graph`]: the closure of a package in a dependency graph.
//! - [`cacher`]: the vulnerability cache.
//! - [`middleware`]: from a parsed manifest and the cache to the findings
//!   that are shown, and the open documents with what is known of them.
//! - [`server`]: what is made of the answers of the vulnerability databases.
//! - [`lsp`]: the texts and places of what the editor is shown.

pub mod cacher;
pub mod common;
pub mod graph;
pub mod key_map;
pub mod logging;
pub mod lsp;
pub mod middleware;
pub mod parsers;
pub mod purl;
pub mod range;
pub mod server;
pub mod text;
