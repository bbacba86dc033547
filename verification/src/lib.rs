//! Core logic of a WebRTC selective forwarding unit for multiplayer
//! sessions: the per-stream forwarding state machine, the published-track
//! registry, the data-channel fan-out framing, the WebSocket group relay,
//! and the service configuration with its validation rules.
//!
//! All I/O — sockets, peer connections, timers — lives outside this
//! library; the functions here take plain values, decide, and return
//! plain values, with contracts stating exactly what they decide.

pub mod clock;
pub mod config;
pub mod data_channel;
pub mod errors;
pub mod forwarder;
pub mod rtcp;
pub mod track;
pub mod wire;
pub mod ws;

pub use errors::AppError;
