//! Ephemeral, password-gated broadcast channels.
//!
//! A client creates a channel with a password and receives an identifier;
//! any number of clients can then join that channel by presenting the
//! identifier and the password. Every text message a participant sends is
//! relayed to all other participants of the same channel, but never echoed
//! back to its own sender.

pub mod hub;
mod ids;
pub mod message;
pub mod registry;
pub mod relay;
