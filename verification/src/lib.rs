//! Off-chain reconciliation core for an NFT contract's event stream.
//!
//! The library ingests decoded contract events (mint confirmations, content
//! redemption requests, ownership transfers) and reconciles them into
//! consistent off-chain state: a live ownership index, a pending-mint
//! register, an append-only log of redeemed content, and per-creator
//! redemption counters.  Every state transition is specified against a
//! mathematical model of the store and proved idempotent under the
//! at-least-once redelivery that a chain-log subscription provides.
//!
//! The surrounding process owns all I/O: it subscribes to the chain node,
//! feeds raw log entries to [`decode::decode_event`], routes the result
//! through [`engine::dispatch`], and drives the redemption pipeline's
//! external calls (safety gate, account lookup, publication) between the
//! pipeline's verified steps.

pub mod api;
pub mod bytes;
pub mod decode;
pub mod engine;
pub mod laws;
pub mod model;
pub mod store;
