//! The direct protocol: two peers exchange their multiplayer ids on a bi-directional stream,
//! then each side sends packets stamped with its own id.
pub mod behaviour;
pub mod connections;
