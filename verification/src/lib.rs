//! A verified core for a minimal HTTP/1.1 static-file server.
//!
//! The library covers the request-to-response pipeline: request-line
//! parsing, path sanitization and index-file resolution, file retrieval
//! against a snapshot of the served directory, and response formatting.
//! Socket handling and filesystem reads live outside the library and
//! hand it plain values.

pub mod file_loader;
pub mod handler;
pub mod path_resolver;
pub mod response;
pub mod strutil;
