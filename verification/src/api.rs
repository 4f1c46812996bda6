//! The messages between Godot's side of the peer and the task that runs the iroh endpoint.
use vstd::prelude::*;

verus! {

/// What the endpoint task reports.
pub enum ApiEvents {
    /// The endpoint is bound: the peer's multiplayer id and its endpoint id.
    Bind { unique_id: i32, node_id: [u8; 32] },
    /// A remote peer with this multiplayer id connected.
    NewConnection(i32),
    /// The remote peer with this multiplayer id went away.
    LostConnection(i32),
    /// A packet arrived from the peer with this multiplayer id.
    RecvPacket((i32, Vec<u8>)),
}

/// Where the endpoint task binds its endpoint: the unspecified IPv4 address and the unspecified
/// IPv6 address, each at its port.
pub struct BindPorts {
    pub ipv4: u16,
    pub ipv6: u16,
}

/// What Godot's side asks of the endpoint task.
pub enum ApiCommands {
    /// Connect to the endpoint with this id.
    JoinNode([u8; 32]),
    /// Send a packet to one peer.
    PushPacket { id: i32, packet: Vec<u8> },
    /// Send a packet to every peer.
    BroadcastPacket(Vec<u8>),
    /// Close the connection to one peer.
    DisconnectNode(i32),
    /// Shut the endpoint down.
    Close,
}

} // verus!
