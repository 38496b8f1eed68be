//! A small library behind a local directory-listing HTTP service: it
//! classifies the direct children of one directory into subdirectories
//! and regular files with metadata, renders the outcome as a
//! pretty-printed JSON response body, and draws candidate ports for
//! the server to probe. The JSON rendering has a proved round trip:
//! decoding a response body gives back the scan outcome it renders.

pub mod data;
pub mod jsonfmt;
pub mod jsonparse;
pub mod numfmt;
pub mod port;
pub mod scan;
