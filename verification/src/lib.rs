//! Core of a small real-time chat system: a fanout router that delivers
//! published messages to at most one live subscriber per identity, a
//! one-time-code issuance and verification flow gated by a keyed-MAC token
//! codec, and the pure helper logic of the client screens.
//!
//! Network transports, the mail relay and the external code store are
//! collaborators at the edge; they are driven from a thin unverified shell
//! that calls into the contracts proved here.

pub mod chats;
pub mod client;
pub mod hexcode;
pub mod identity;
pub mod router;
pub mod store;
pub mod token;
pub mod user_service;
mod vecs;
