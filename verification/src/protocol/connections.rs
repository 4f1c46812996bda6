//! One connection of the direct protocol, as the peer sees it.
use crate::keys::{endpoint_id_z32, key_bytes_to_z32};
use vstd::prelude::*;

verus! {

/// The largest packet read from a connection at once, and the size announced to Godot.
pub const MAX_PACKET_SIZE: usize = 256;

/// What a connection carries for Godot: a packet stamped with its sender's multiplayer id.
pub struct MultiplayerDataPacket {
    pub sender: i32,
    pub packet: Vec<u8>,
}

/// The text `get_node_id` gives for bytes that are no endpoint id.
pub open spec fn invalid_node_text() -> Seq<char> {
    "invalid endpoint id"@
}

/// A connection to a remote peer: who the peer is, and the id this side stamps on what it sends.
pub struct RemoteConnection {
    host_id: i32,
    node_id: [u8; 32],
}

impl RemoteConnection {
    /// The multiplayer id of this side.
    pub closed spec fn host_spec(self) -> i32 {
        self.host_id
    }

    /// The endpoint id of the remote peer.
    pub closed spec fn node_spec(self) -> Seq<u8> {
        self.node_id@
    }

    /// A connection between `host_id` (this side) and the endpoint `node_id`.
    pub fn new(host_id: i32, node_id: [u8; 32]) -> (c: Self)
        ensures
            c.host_spec() == host_id,
            c.node_spec() == node_id@,
    {
        RemoteConnection { host_id, node_id }
    }

    /// The remote endpoint id as z-base-32 text.
    pub fn get_node_id(&self) -> (s: String)
        ensures
            s@ == (match endpoint_id_z32(self.node_spec()) {
                Some(t) => t,
                None => invalid_node_text(),
            }),
    {
        match key_bytes_to_z32(&self.node_id) {
            Some(text) => text,
            None => String::from_str("invalid endpoint id"),
        }
    }

    /// What goes out for a packet from Godot: the packet, stamped with this side's id.
    pub fn outbound_packet(&self, packet: Vec<u8>) -> (d: MultiplayerDataPacket)
        ensures
            d.sender == self.host_spec(),
            d.packet@ == packet@,
    {
        MultiplayerDataPacket { sender: self.host_id, packet }
    }
}

/// The packet handed on after a read from a connection: the read always fills a buffer of
/// `MAX_PACKET_SIZE` zeroed bytes, and the whole buffer is handed on.
pub open spec fn inbound_spec(read: Seq<u8>) -> Seq<u8> {
    read + Seq::new((MAX_PACKET_SIZE - read.len()) as nat, |i: int| 0u8)
}

/// The packet handed on after a read that delivered `read`.
pub fn inbound_packet(read: &[u8]) -> (p: Vec<u8>)
    requires
        read@.len() <= MAX_PACKET_SIZE,
    ensures
        p@ == inbound_spec(read@),
        p@.len() == MAX_PACKET_SIZE,
{
    let mut p: Vec<u8> = Vec::new();
    let mut i: usize = 0;
    while i < MAX_PACKET_SIZE
        invariant
            read@.len() <= MAX_PACKET_SIZE,
            i <= MAX_PACKET_SIZE,
            p@ == inbound_spec(read@).take(i as int),
        decreases MAX_PACKET_SIZE - i,
    {
        let b = if i < read.len() { read[i] } else { 0u8 };
        p.push(b);
        proof {
            assert(inbound_spec(read@).take(i as int + 1) =~= inbound_spec(read@).take(i as int).push(b));
        }
        i = i + 1;
    }
    proof {
        assert(inbound_spec(read@).take(MAX_PACKET_SIZE as int) =~= inbound_spec(read@));
    }
    p
}

/// What a read delivered is handed on whole, in order, at the start of a packet of
/// `MAX_PACKET_SIZE` bytes whose remaining bytes are zero.
pub proof fn law_inbound_keeps_every_byte_read(read: Seq<u8>)
    requires
        read.len() <= MAX_PACKET_SIZE,
    ensures
        inbound_spec(read).len() == MAX_PACKET_SIZE,
        inbound_spec(read).take(read.len() as int) == read,
        forall|i: int| read.len() <= i < MAX_PACKET_SIZE ==> #[trigger] inbound_spec(read)[i] == 0u8,
        forall|i: int| 0 <= i < read.len() ==> #[trigger] inbound_spec(read)[i] == read[i],
{
    assert(inbound_spec(read).take(read.len() as int) =~= read);
}

} // verus!
