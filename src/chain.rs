//! Block data as the execution-layer client delivers it.

use vstd::prelude::*;
use crate::primitives::{Address, Bytes32};

verus! {

/// One log emitted during a transaction.
#[derive(Clone, Debug)]
pub struct LogEntry {
    pub address: Address,
    pub topics: Vec<Bytes32>,
    pub data: Vec<u8>,
    pub transaction_hash: Option<Bytes32>,
    pub block_number: Option<u64>,
    pub transaction_index: Option<u64>,
    pub log_index: Option<u64>,
}

/// The outcome of one transaction, with the logs it emitted in order.
#[derive(Clone, Debug)]
pub struct Receipt {
    pub transaction_hash: Bytes32,
    pub from: Address,
    pub to: Option<Address>,
    pub logs: Vec<LogEntry>,
}

/// The header fields of a block that the pipeline keeps.
#[derive(Clone, Copy, Debug, PartialEq, Eq, Structural)]
pub struct BlockHeader {
    pub number: u64,
    pub timestamp: u64,
}

/// The topic-0 signature hash of each event kind, used as dispatch keys.
#[derive(Clone, Copy, Debug, PartialEq, Eq, Structural)]
pub struct EventSignatures {
    pub pool_created: Bytes32,
    pub initialize: Bytes32,
    pub swap: Bytes32,
    pub mint: Bytes32,
    pub burn: Bytes32,
    pub collect: Bytes32,
}

/// The six event kinds that the pipeline records.
#[derive(Clone, Copy, Debug, PartialEq, Eq, Structural)]
pub enum EventKind {
    PoolCreated,
    Initialize,
    Swap,
    Mint,
    Burn,
    Collect,
}

impl EventSignatures {
    /// The kind whose signature is `topic`, looked up in the order
    /// pool-created, initialize, swap, mint, burn, collect.
    pub open spec fn kind_spec(self, topic: Bytes32) -> Option<EventKind> {
        if topic == self.pool_created {
            Some(EventKind::PoolCreated)
        } else if topic == self.initialize {
            Some(EventKind::Initialize)
        } else if topic == self.swap {
            Some(EventKind::Swap)
        } else if topic == self.mint {
            Some(EventKind::Mint)
        } else if topic == self.burn {
            Some(EventKind::Burn)
        } else if topic == self.collect {
            Some(EventKind::Collect)
        } else {
            None
        }
    }

    /// The event kind whose signature hash is `topic`, if any.
    pub fn kind_of(&self, topic: Bytes32) -> (r: Option<EventKind>)
        ensures
            r == self.kind_spec(topic),
    {
        if topic == self.pool_created {
            Some(EventKind::PoolCreated)
        } else if topic == self.initialize {
            Some(EventKind::Initialize)
        } else if topic == self.swap {
            Some(EventKind::Swap)
        } else if topic == self.mint {
            Some(EventKind::Mint)
        } else if topic == self.burn {
            Some(EventKind::Burn)
        } else if topic == self.collect {
            Some(EventKind::Collect)
        } else {
            None
        }
    }
}

} // verus!
