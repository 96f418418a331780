//! Session protocol for a small game server and its clients over a
//! message-oriented, relay-based transport.
//!
//! The crate covers the protocol core: binary message framing
//! ([`codec`]), the per-channel "latest value wins" frame aggregation and
//! length-prefixed buffer packing ([`aggregator`]), and the client and
//! server session state machines ([`client_session`], [`server_session`]).
//! The surrounding transport, platform identity services and callback
//! plumbing are external collaborators: the state machines consume plain
//! events and return the actions the caller must perform, so every
//! protocol decision is made - and verified - here.

pub mod aggregator;
pub mod client_session;
pub mod codec;
pub mod events;
pub mod message;
pub mod server_session;
