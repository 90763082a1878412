//! Core of a concurrency-bounded UDP DNS responder.
//!
//! The library holds the verified logic: an exact-match domain index built
//! over a double-array trie ([`matcher`]), the wire-message model and its
//! trusted codec ([`message`]), the request handlers ([`handler`]), the
//! bounded admission controller ([`gate`]), and the server lifecycle state machine
//! ([`server`]). Socket I/O and task scheduling live outside the library and
//! drive it through these modules.

pub mod gate;
pub mod handler;
pub mod matcher;
pub mod message;
pub mod server;
