//! Two-peer state-replication layer for a small arcade game.
//!
//! Peers exchange periodic game-state snapshots over an unreliable,
//! connectionless transport.  This crate holds the verified core of that
//! layer: the wire codec for the three snapshot message kinds, the session
//! state that tracks the current remote peer, and the dispatch rules that
//! apply inbound events to the mirrored match state (including the implicit
//! re-targeting that happens when a world-anchor snapshot arrives from a new
//! remote address).  The transport itself, rendering and the per-frame
//! physics live outside this crate and talk to it through plain values.

pub mod claw;
pub mod codec;
pub mod config;
pub mod event;
pub mod menu;
pub mod network;
pub mod num;
pub mod player;
pub mod snacks;
pub mod state;
pub mod tokens;
