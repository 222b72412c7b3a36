//! Connection and protocol layer of a block-game server.
//!
//! The wire format is a stream of length-prefixed frames. Every frame holds a
//! packet identifier and a payload; what an identifier means depends on the
//! phase the connection is in. This crate holds the codec for that format, the
//! phase machine that turns frames into typed requests, and the handlers that
//! turn requests into replies. Sockets, threads and files are left to the
//! program that embeds it.

pub mod server;
