//! The pool server's own state: caches, accounting, provers and connections.

pub mod aleo;
pub mod cache;
pub mod accounting;
pub mod connection;
pub mod server;
pub mod peer;
