//! Godot's side of the peer built on the direct protocol: the registry of connected peers, the
//! queue of packets for Godot, and where Godot's packets go.
use crate::keys::{endpoint_id_z32, key_bytes_to_z32, z32_decodable_len, z32_endpoint_id, z32_to_key_bytes};
use crate::messages::{decode_data_packet, parse_data_packet};
use crate::multiplayer_peer::peer::Peer;
use crate::protocol::connections::{MultiplayerDataPacket, MAX_PACKET_SIZE};
use crate::shared::{
    entry_ids, entry_node, front_sender_spec, insert_entry, remove_entry, routed_to,
    ConnectionStatus, GodotError, PacketQueue, PeerRegistry, PeerSignal, TransferMode,
    TARGET_PEER_BROADCAST,
};
use vstd::prelude::*;
use vstd::slice::slice_to_vec;

verus! {

/// Why a connection to a node cannot be started.
#[derive(Clone, Copy, Debug, PartialEq, Eq, Structural)]
pub enum ConnectFailure {
    /// The peer is not bootstrapped to the iroh network yet.
    NotBootstrapped,
    /// The text names no endpoint.
    InvalidNodeId,
}

/// The text `local_node_id` gives before the peer is bootstrapped.
pub open spec fn not_connected_text() -> Seq<char> {
    "Not connected to the iroh network"@
}

/// The text `remote_node_id` gives for an id that is not connected.
pub open spec fn not_a_peer_text() -> Seq<char> {
    "Not a connected peer ID"@
}

/// Godot's side of a peer on the direct protocol.
pub struct IrohMultiplayerPeer {
    peer: Option<Peer>,
    connections: PeerRegistry,
    packet_queue: PacketQueue,
    target_peer: i32,
}

impl IrohMultiplayerPeer {
    /// The local peer, once bootstrapped.
    pub closed spec fn peer_spec(self) -> Option<Peer> {
        self.peer
    }

    /// The connected peers (multiplayer id, endpoint id).
    pub closed spec fn peers(self) -> Seq<(i32, Seq<u8>)> {
        self.connections@
    }

    /// Packets waiting for Godot, oldest first.
    pub closed spec fn packets(self) -> Seq<(i32, Seq<u8>)> {
        self.packet_queue@
    }

    /// The peer Godot addresses its next packets to.
    pub closed spec fn target(self) -> i32 {
        self.target_peer
    }

    /// Well-formed: one registry entry per connected peer.
    pub open spec fn wf(self) -> bool {
        entry_ids(self.peers()).no_duplicates()
    }

    /// `self` and `other` agree on everything.
    pub open spec fn same(self, other: Self) -> bool {
        &&& self.peer_spec() == other.peer_spec()
        &&& self.peers() == other.peers()
        &&& self.packets() == other.packets()
        &&& self.target() == other.target()
    }

    /// The peer after bootstrapping: `peer` is the local peer when binding the endpoint
    /// worked, `None` when it failed.
    pub fn bootstrap(peer: Option<Peer>) -> (p: Self)
        ensures
            p.wf(),
            p.peer_spec() == peer,
            p.peers() == Seq::<(i32, Seq<u8>)>::empty(),
            p.packets() == Seq::<(i32, Seq<u8>)>::empty(),
            p.target() == 0,
    {
        IrohMultiplayerPeer {
            peer,
            connections: PeerRegistry::new(),
            packet_queue: PacketQueue::new(),
            target_peer: 0,
        }
    }

    /// Number of packets waiting for Godot.
    pub fn get_available_packet_count(&self) -> (n: i32)
        ensures
            n == self.packets().len() as i32,
    {
        self.packet_queue.len() as i32
    }

    /// The largest packet size announced to Godot.
    pub fn get_max_packet_size(&self) -> (n: i32)
        ensures
            n == MAX_PACKET_SIZE as i32,
    {
        MAX_PACKET_SIZE as i32
    }

    /// Every packet travels on channel 0.
    pub fn get_packet_channel(&self) -> (c: i32)
        ensures
            c == 0,
    {
        0
    }

    /// Every packet travels reliably.
    pub fn get_packet_mode(&self) -> (m: TransferMode)
        ensures
            m == TransferMode::Reliable,
    {
        TransferMode::Reliable
    }

    /// Channels are not supported: the request is ignored.
    pub fn set_transfer_channel(&mut self, _p_channel: i32)
        ensures
            final(self).same(*old(self)),
    {
    }

    /// Packets are always sent on channel 0.
    pub fn get_transfer_channel(&self) -> (c: i32)
        ensures
            c == 0,
    {
        0
    }

    /// Transfer modes are not supported: the request is ignored.
    pub fn set_transfer_mode(&mut self, _p_mode: TransferMode)
        ensures
            final(self).same(*old(self)),
    {
    }

    /// Packets are always sent reliably.
    pub fn get_transfer_mode(&self) -> (m: TransferMode)
        ensures
            m == TransferMode::Reliable,
    {
        TransferMode::Reliable
    }

    /// Addresses the next packets to `p_peer` (0: every peer).
    pub fn set_target_peer(&mut self, p_peer: i32)
        ensures
            final(self).target() == p_peer,
            final(self).peer_spec() == old(self).peer_spec(),
            final(self).peers() == old(self).peers(),
            final(self).packets() == old(self).packets(),
    {
        self.target_peer = p_peer;
    }

    /// Sender of the packet Godot reads next, 0 when none waits.
    pub fn get_packet_peer(&self) -> (id: i32)
        ensures
            id == (match front_sender_spec(self.packets()) {
                Some(s) => s,
                None => 0i32,
            }),
    {
        match self.packet_queue.front_sender() {
            Some(s) => s,
            None => 0,
        }
    }

    /// An iroh peer is never a standalone server.
    pub fn is_server(&self) -> (b: bool)
        ensures
            !b,
    {
        false
    }

    /// Registers a connection that was opened or accepted with peer `remote_id` (endpoint
    /// `node_id`), replacing an earlier connection of that peer; returns the signal for Godot.
    pub fn poll_inbound_connection(&mut self, remote_id: i32, node_id: [u8; 32]) -> (sig: PeerSignal)
        requires
            old(self).wf(),
        ensures
            final(self).wf(),
            sig == PeerSignal::PeerConnected(remote_id as i64),
            final(self).peers() == insert_entry(old(self).peers(), remote_id, node_id@),
            final(self).peer_spec() == old(self).peer_spec(),
            final(self).packets() == old(self).packets(),
            final(self).target() == old(self).target(),
    {
        let _ = self.connections.insert(remote_id, node_id);
        PeerSignal::PeerConnected(remote_id as i64)
    }

    /// Queues a packet read from a connection, under the sender it is stamped with.
    pub fn poll_inbound_packet(&mut self, data: MultiplayerDataPacket)
        ensures
            final(self).packets() == old(self).packets().push((data.sender, data.packet@)),
            final(self).peer_spec() == old(self).peer_spec(),
            final(self).peers() == old(self).peers(),
            final(self).target() == old(self).target(),
    {
        self.packet_queue.push_back(data.sender, data.packet);
    }

    /// Forgets the connection of `p_peer`; tells whether there was one to close.
    pub fn disconnect_peer(&mut self, p_peer: i32, _p_force: bool) -> (closed: bool)
        requires
            old(self).wf(),
        ensures
            final(self).wf(),
            closed == entry_ids(old(self).peers()).contains(p_peer),
            final(self).peers() == remove_entry(old(self).peers(), p_peer),
            !entry_ids(final(self).peers()).contains(p_peer),
            final(self).peer_spec() == old(self).peer_spec(),
            final(self).packets() == old(self).packets(),
            final(self).target() == old(self).target(),
    {
        proof {
            entry_ids(self.connections@).index_of_first_ensures(p_peer);
        }
        self.connections.remove(p_peer).is_some()
    }

    /// The multiplayer id of the local peer, 0 before bootstrapping.
    pub fn get_unique_id(&self) -> (id: i32)
        ensures
            id == (match self.peer_spec() {
                Some(p) => p.proto_spec().unique_spec(),
                None => 0i32,
            }),
    {
        match &self.peer {
            Some(peer) => peer.get_unique_id(),
            None => 0,
        }
    }

    /// Connected once bootstrapped, disconnected before.
    pub fn get_connection_status(&self) -> (s: ConnectionStatus)
        ensures
            s == (if self.peer_spec() is Some {
                ConnectionStatus::Connected
            } else {
                ConnectionStatus::Disconnected
            }),
    {
        match &self.peer {
            Some(_) => ConnectionStatus::Connected,
            None => ConnectionStatus::Disconnected,
        }
    }

    /// Hands the oldest packet to Godot; an empty packet when none waits.
    pub fn get_packet_script(&mut self) -> (packet: Vec<u8>)
        ensures
            final(self).peer_spec() == old(self).peer_spec(),
            final(self).peers() == old(self).peers(),
            final(self).target() == old(self).target(),
            old(self).packets().len() == 0 ==> packet@ == Seq::<u8>::empty() && final(self).packets() == old(self).packets(),
            old(self).packets().len() > 0 ==> packet@ == old(self).packets()[0].1
                && final(self).packets() == old(self).packets().drop_first(),
    {
        match self.packet_queue.pop_front() {
            Some((_, data)) => data,
            None => Vec::new(),
        }
    }

    /// Routes a packet from Godot: to every connected peer for the broadcast target, else to
    /// the target when it is connected; an unknown target is refused.
    pub fn put_packet_script(&self, p_buffer: &[u8]) -> (r: (GodotError, Vec<(i32, Vec<u8>)>))
        ensures
            r.0 == (if self.target() == TARGET_PEER_BROADCAST || entry_ids(self.peers()).contains(self.target()) {
                GodotError::NoError
            } else {
                GodotError::ErrDoesNotExist
            }),
            r.1@.len() == routed_to(entry_ids(self.peers()), self.target()).len(),
            forall|i: int| 0 <= i < r.1@.len() ==> (#[trigger] r.1@[i]).0 == routed_to(entry_ids(self.peers()), self.target())[i]
                && r.1@[i].1@ == p_buffer@,
    {
        let mut out: Vec<(i32, Vec<u8>)> = Vec::new();
        if self.target_peer == TARGET_PEER_BROADCAST {
            let ids = self.connections.ids();
            let mut i: usize = 0;
            while i < ids.len()
                invariant
                    ids@ == entry_ids(self.peers()),
                    i <= ids@.len(),
                    out@.len() == i,
                    forall|j: int| 0 <= j < i ==> (#[trigger] out@[j]).0 == ids@[j] && out@[j].1@ == p_buffer@,
                decreases ids@.len() - i,
            {
                out.push((ids[i], slice_to_vec(p_buffer)));
                i = i + 1;
            }
            (GodotError::NoError, out)
        } else if self.connections.contains(self.target_peer) {
            out.push((self.target_peer, slice_to_vec(p_buffer)));
            (GodotError::NoError, out)
        } else {
            (GodotError::ErrDoesNotExist, out)
        }
    }

    /// The endpoint to connect to for a z-base-32 node id; refused before bootstrapping and
    /// for text that names no endpoint (text too long for the decoder names none either).
    pub fn connect_to_node(&self, node: &str) -> (r: Result<[u8; 32], ConnectFailure>)
        ensures
            self.peer_spec() is None ==> r == Err::<[u8; 32], ConnectFailure>(ConnectFailure::NotBootstrapped),
            self.peer_spec() is Some && !z32_decodable_len(node) ==> r == Err::<[u8; 32], ConnectFailure>(
                ConnectFailure::InvalidNodeId,
            ),
            self.peer_spec() is Some && z32_decodable_len(node) ==> match z32_endpoint_id(node@) {
                Some(id) => r matches Ok(k) && k@ == id,
                None => r == Err::<[u8; 32], ConnectFailure>(ConnectFailure::InvalidNodeId),
            },
    {
        match &self.peer {
            Some(_) => if node.as_bytes().len() > usize::MAX / 8 {
                Err(ConnectFailure::InvalidNodeId)
            } else {
                match z32_to_key_bytes(node) {
                    Some(id) => Ok(id),
                    None => Err(ConnectFailure::InvalidNodeId),
                }
            },
            None => Err(ConnectFailure::NotBootstrapped),
        }
    }

    /// The local endpoint id as z-base-32 text; before bootstrapping, a note saying so.
    pub fn local_node_id(&self) -> (s: String)
        ensures
            s@ == (match self.peer_spec() {
                Some(p) => match endpoint_id_z32(p.endpoint_spec()) {
                    Some(t) => t,
                    None => not_connected_text(),
                },
                None => not_connected_text(),
            }),
    {
        match &self.peer {
            Some(peer) => match key_bytes_to_z32(peer.endpoint()) {
                Some(text) => text,
                None => String::from_str("Not connected to the iroh network"),
            },
            None => String::from_str("Not connected to the iroh network"),
        }
    }

    /// The endpoint id of connected peer `peer` as z-base-32 text; a note for other ids.
    pub fn remote_node_id(&self, peer: i32) -> (s: String)
        ensures
            s@ == (match entry_node(self.peers(), peer) {
                Some(n) => match endpoint_id_z32(n) {
                    Some(t) => t,
                    None => not_a_peer_text(),
                },
                None => not_a_peer_text(),
            }),
    {
        match self.connections.node_of(peer) {
            Some(node) => match key_bytes_to_z32(&node) {
                Some(text) => text,
                None => String::from_str("Not a connected peer ID"),
            },
            None => String::from_str("Not a connected peer ID"),
        }
    }
}

/// Reads the data packet a remote peer sent: its sender and its bytes; `None` for bytes that
/// are no data packet.
pub fn process_packet(packet: &[u8]) -> (r: Option<(i32, Vec<u8>)>)
    ensures
        match parse_data_packet(packet@) {
            Some((sender, p)) => r matches Some((s, v)) && s == sender && v@ == p,
            None => r is None,
        },
{
    match decode_data_packet(packet) {
        Some(data) => Some((data.sender, data.packet)),
        None => None,
    }
}

/// After `p` was disconnected, no packet from Godot reaches it, whatever it is addressed to.
pub proof fn law_disconnected_peer_is_not_routed(peers: Seq<(i32, Seq<u8>)>, p: i32, target: i32)
    requires
        entry_ids(peers).no_duplicates(),
    ensures
        !routed_to(entry_ids(remove_entry(peers, p)), target).contains(p),
{
    let ids = entry_ids(peers);
    ids.index_of_first_ensures(p);
    match ids.index_of_first(p) {
        Some(i) => {
            assert(entry_ids(remove_entry(peers, p)) =~= ids.remove(i));
            crate::shared::lemma_remove_unique_id(ids, i);
        },
        None => {},
    }
}

/// Once peer `id` connected, a packet Godot addresses to it reaches exactly it.
pub proof fn law_connected_peer_is_routed(peers: Seq<(i32, Seq<u8>)>, id: i32, node: Seq<u8>)
    requires
        entry_ids(peers).no_duplicates(),
        id != TARGET_PEER_BROADCAST,
    ensures
        routed_to(entry_ids(insert_entry(peers, id, node)), id) == seq![id],
{
    let ids = entry_ids(peers);
    ids.index_of_first_ensures(id);
    match ids.index_of_first(id) {
        Some(i) => {
            assert(entry_ids(insert_entry(peers, id, node)) =~= ids);
        },
        None => {
            assert(entry_ids(insert_entry(peers, id, node)) =~= ids.push(id));
            assert(ids.push(id)[ids.len() as int] == id);
        },
    }
}

} // verus!
