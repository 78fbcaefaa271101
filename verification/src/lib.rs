//! A minimal publish/subscribe broker library.
//!
//! Producers append text messages to named topics; consumers read them back,
//! either the full backlog or everything from a given offset forward. The
//! library holds the verified core: the topic log and its offset semantics,
//! the topic registry, the line-oriented protocol state machine, and the
//! client-side resilience logic (retry backoff, connection pooling). All
//! networking lives outside the library.

pub mod broker;
pub mod consumer;
pub mod message;
pub mod producer;
pub mod protocol;
pub mod topic;
