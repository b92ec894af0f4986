//! Reads the basic demographic record of Taiwanese National Health Insurance
//! cards and prepares it for an HTTP/WebSocket service.
//!
//! The crate holds the pieces that must be correct under concurrent clients
//! and flaky hardware: the fixed-layout card-record decoder, the snapshot
//! cache with its non-blocking dedup lock, the per-reader acquisition cycle,
//! the JSON wire format, and the streaming-session protocol. Hardware access
//! and the HTTP stack live outside, in the surrounding binary, and feed this
//! crate plain values.

pub mod acquire;
pub mod big5;
pub mod cache;
pub mod card;
pub mod date;
pub mod errors;
pub mod json;
pub mod session;
pub mod text;
