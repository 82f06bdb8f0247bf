//! A content-addressed conversion cache with a background media index: a
//! media reference maps to a stable identifier, each identifier is
//! downloaded and transcoded into one canonical artifact, and an in-memory,
//! periodically refreshed index of the artifacts drives a gallery with
//! lazily generated thumbnails.
//!
//! The decisions are verified here: identifier derivation, cache hits,
//! command lines, snapshot replacement, listing order, and thumbnail
//! planning. The blocking work between the decisions — HTTP, child
//! processes, the filesystem, the clock, the chat platform — is the
//! embedding program's, which hands the outcomes back in as plain values.
pub mod config;
pub mod errors;
pub mod models;
pub mod text;
pub mod thumbnails;
pub mod web;
pub mod yliproxy;
