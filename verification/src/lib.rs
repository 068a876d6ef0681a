//! A sharded, replicated key-value store core: deterministic key
//! partitioning, a framed binary wire codec, the replica storage
//! protocol, and the handler's quorum reconciliation logic.
//!
//! Networking, threads and clocks live outside this crate; everything
//! here is pure logic over plain values, specified and verified.

pub mod codec;
pub mod handler;
pub mod message;
pub mod storage;
pub mod storage_node;
