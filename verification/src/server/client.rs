//! The phase of one client connection.

use vstd::prelude::*;

verus! {

/// The sub-protocol a connection is in. It decides how packet identifiers
/// are read. A connection starts in `Handshake`.
#[derive(Debug, Clone, Copy, PartialEq, Eq, Structural)]
pub enum State {
    Handshake,
    Status,
    Login,
    Play,
}

} // verus!
