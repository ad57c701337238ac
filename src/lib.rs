//! Typed event replication between an authoritative server and its clients:
//! channel allocation, wire envelopes, wraparound ticks, per-connection
//! session bookkeeping and the per-channel send / receive pumps.

pub mod tick;
pub mod channels;
pub mod error;
pub mod message;
pub mod session;
pub mod client_events;
pub mod server_events;
pub mod helper;
