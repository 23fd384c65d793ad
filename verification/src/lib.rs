//! Session orchestration for multiplayer games over a message bus.
//!
//! The crate holds the decisions of three services and leaves the talking
//! to its callers:
//!
//! - `resolver`, `connector` and `session_store`: under which addresses the
//!   bus is tried and in which order, how the connection is secured, and
//!   how the durable state on the bus is provisioned;
//! - `lobby` and `deployment`: the rooms of a lobby, from their creation to
//!   the deployment of a game server, with `lobby_proofs` for what holds of
//!   every lobby;
//! - `bridge`: a WebSocket connection behind queues that can be polled.
//!
//! `text` has the character-level helpers that the others share.

pub mod bridge;
pub mod connector;
pub mod deployment;
pub mod lobby;
pub mod lobby_proofs;
pub mod resolver;
pub mod session_store;
pub mod text;
