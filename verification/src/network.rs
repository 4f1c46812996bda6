//! The peer built on an iroh runtime task that is driven by broadcast commands and events,
//! with gossip topics joined through shareable tickets.
pub mod multiplayer_peer;
pub mod runtime;
pub mod tickets;
