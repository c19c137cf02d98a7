//! Core engine of a multiplayer drawing-and-guessing game server.
//!
//! A registry of rooms, each room holding an ordered player list, an optional
//! round (image metadata, secret answer, drawn circles) and an abortable
//! cleanup timer. Inbound events are validated against room state and applied
//! under exact contracts; every state change also yields the list of outbound
//! deliveries that the transport layer must perform.

pub mod events;
pub mod handler;
pub mod laws;
pub mod player;
pub mod registry;
pub mod room;
pub mod round;
pub mod text;
pub mod token;
