//! Ingestion of liquidity-pool lifecycle events: decoding of block receipts,
//! membership gating against the tracked-pool registry, checked conversion to
//! storage rows, idempotent write plans, and the retry and run-mode decisions
//! that drive the pipeline.

pub mod bytes;
pub mod primitives;
pub mod numeric;
pub mod chain;
pub mod abi;
pub mod records;
pub mod registry;
pub mod dispatch;
pub mod persist;
pub mod retry;
pub mod orchestrator;
