//! Ingestion pipeline of a multiplayer text-game server: verb-hash
//! validation of inbound messages, a deduplicating request cache, the
//! batching funnel and the session state machine.

pub mod configuration;
pub mod request;
pub mod verb_hash;
pub mod request_cache;
pub mod funnel;
pub mod session;
