//! The gossip message surface: what peers exchange. Transport, topics and
//! wire encoding live outside the core; these are the payloads it consumes
//! and produces.
use vstd::prelude::*;
use crate::block::Block;
use crate::transaction::Transaction;

verus! {

/// The gossip topic carrying transactions.
pub const TX_TOPIC: &'static str = "toki-transactions";

/// The gossip topic carrying blocks.
pub const BLOCK_TOPIC: &'static str = "toki-blocks";

/// A message of the gossip protocol.
pub enum NetworkMessage {
    /// Broadcast on admission of a transaction.
    NewTransaction(Transaction),
    /// Broadcast on a successful mine.
    NewBlock(Block),
    /// Request a full chain snapshot.
    RequestChain,
    /// Deliver a chain snapshot.
    ChainResponse(Vec<Block>),
}

} // verus!
