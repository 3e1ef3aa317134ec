//! Verified core of a command-line client for a home-automation server.
//!
//! The crate holds everything the client decides or computes: resolving the
//! connection configuration from looked-up variables, building request URLs
//! and JSON bodies, matching entity identifiers against domains, filtering
//! entity lists, and rendering the output lines of each subcommand. The
//! surrounding binary only performs the lookups, the HTTP calls and the
//! printing, and hands every value through these verified functions.

pub mod client;
pub mod domains;
pub mod records;
pub mod render;
pub mod text;
