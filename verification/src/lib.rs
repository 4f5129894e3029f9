//! Central hub for distributed game-server processes: a connection registry
//! with broadcast fan-out, a presence index keyed by player name, the
//! per-connection session state machine, token-gated entry points, and the
//! balance rules of the economy storage.

pub mod config;
pub mod hub;
pub mod multi_economy;
pub mod player;
pub mod player_api;
pub mod seq_facts;
pub mod session;
pub mod single_economy;
mod strutil;
