//! Core of a local markdown-serving HTTP server.
//!
//! The library covers the request-to-document pipeline: resolving a request
//! path to a candidate document path on disk, decoding document bytes as
//! UTF-8 text, rendering markdown to HTML, and classifying each outcome into
//! an HTTP response. Filesystem and network access stay outside; callers
//! hand in the answers the filesystem gave (the canonicalized base path,
//! whether each candidate exists, the bytes read) and get back verified
//! decisions.

pub mod render;
pub mod resolve;
pub mod respond;
