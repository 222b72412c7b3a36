//! The server side of a connection: its phase, its packets and the state
//! the handlers read.

use vstd::prelude::*;
use quartz_nbt::NbtCompound;

pub mod client;
pub mod config;
pub mod packet;

verus! {

/// What the handlers read of the server: its configuration and the two
/// structured documents sent to every player that joins. The documents are
/// made by the program that embeds this crate.
pub struct ServerState {
    pub config: config::Config,
    /// The registry of dimension types and biomes.
    pub dim_codec: NbtCompound,
    /// The description of the dimension a player joins.
    pub dimension: NbtCompound,
}

} // verus!
