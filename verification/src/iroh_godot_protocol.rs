//! The star protocol: a joining peer picks its own multiplayer id and sends it; it knows the
//! peer it joined as the authority (id 1); the accepting peer forwards to each connection only
//! the packets addressed to that connection's peer.
use crate::shared::{is_assignable_peer_id, random_peer_id, SERVER_PEER_ID};
use crate::messages::{data_packet_bytes, encode_data_packet};
use crate::protocol::connections::MultiplayerDataPacket;
use crate::MAX_ALLOWED_PACKET_SIZE;
use vstd::prelude::*;
use vstd::slice::slice_to_vec;

verus! {

/// The identity of an outbound connection: the multiplayer id this peer picked for itself.
#[derive(Debug)]
pub struct OutboundConnection {
    id: i32,
}

impl OutboundConnection {
    /// The self-assigned id.
    pub closed spec fn id_spec(self) -> i32 {
        self.id
    }

    /// An outbound connection with a fresh random id from `2..i32::MAX`.
    pub fn new() -> (c: Self)
        ensures
            is_assignable_peer_id(c.id_spec()),
    {
        OutboundConnection { id: random_peer_id() }
    }

    /// The self-assigned id, sent to the joined peer in the handshake.
    pub fn get_id(&self) -> (id: i32)
        ensures
            id == self.id_spec(),
    {
        self.id
    }

    /// The id under which the joining peer registers the peer it joined: the authority.
    pub fn host_id(&self) -> (id: i32)
        ensures
            id == SERVER_PEER_ID,
    {
        SERVER_PEER_ID
    }
}

/// Whether the accepting side forwards a packet addressed to `target` on the connection of
/// peer `remote_id`: only when they are the same peer.
pub fn forwards_to(target: i32, remote_id: i32) -> (b: bool)
    ensures
        b == (target == remote_id),
{
    target == remote_id
}

/// What a read of `n` bytes into the stream buffer `buf` hands on: the whole buffer, unless
/// the read claims more bytes than the buffer holds.
pub fn read_packet(buf: &[u8], n: usize) -> (r: Option<Vec<u8>>)
    requires
        buf@.len() == MAX_ALLOWED_PACKET_SIZE,
    ensures
        n > MAX_ALLOWED_PACKET_SIZE ==> r is None,
        n <= MAX_ALLOWED_PACKET_SIZE ==> (r matches Some(p) && p@ == buf@),
{
    if n > MAX_ALLOWED_PACKET_SIZE {
        None
    } else {
        Some(slice_to_vec(buf))
    }
}

/// The data packet a joining peer sends for a packet from Godot, stamped with its own id.
pub fn create_flatbuffer(id: i32, godot_packet: Vec<u8>) -> (b: Vec<u8>)
    requires
        godot_packet@.len() <= u32::MAX,
    ensures
        b@ == data_packet_bytes(id, godot_packet@),
{
    encode_data_packet(&MultiplayerDataPacket { sender: id, packet: godot_packet })
}

} // verus!
