//! What the operator configures.

use vstd::prelude::*;

verus! {

/// The settings of a server, read once before it starts.
#[derive(Clone, Debug)]
pub struct Config {
    /// The description shown to clients that ask for the server's status.
    pub motd: String,
    /// The address the server listens on.
    pub address: String,
}

} // verus!
