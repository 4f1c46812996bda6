//! The peer that talks to the endpoint task through `ApiCommands` and `ApiEvents`: Godot's
//! calls become commands, and `poll` turns one event at a time into state and signals.
use crate::api::{ApiCommands, ApiEvents, BindPorts};
use crate::keys::{endpoint_id_z32, key_bytes_to_z32, z32_decodable_len, z32_endpoint_id, z32_to_key_bytes};
use crate::proto::MAX_PACKET_SIZE;
use crate::shared::{
    front_sender_spec, ConnectionStatus, GodotError, PacketQueue, PeerSignal, TransferMode,
    TARGET_PEER_BROADCAST,
};
use vstd::prelude::*;
use vstd::slice::slice_to_vec;

verus! {

/// The text `local_node_id` gives before the endpoint is bound.
pub open spec fn null_text() -> Seq<char> {
    seq!['N', 'U', 'L', 'L']
}

/// Godot's side of a peer whose network work runs in the endpoint task.
pub struct IrohMultiplayerPeer {
    unique_id: i32,
    node_id: Option<[u8; 32]>,
    target_peer: i32,
    status: ConnectionStatus,
    recv_packets: PacketQueue,
}

impl IrohMultiplayerPeer {
    /// The multiplayer id (0 until the endpoint is bound).
    pub closed spec fn unique_spec(self) -> i32 {
        self.unique_id
    }

    /// The endpoint id, once the endpoint is bound.
    pub closed spec fn node_spec(self) -> Option<Seq<u8>> {
        match self.node_id {
            Some(n) => Some(n@),
            None => None,
        }
    }

    /// The peer Godot addresses its next packets to.
    pub closed spec fn target(self) -> i32 {
        self.target_peer
    }

    /// The connection status reported to Godot.
    pub closed spec fn status_spec(self) -> ConnectionStatus {
        self.status
    }

    /// Packets waiting for Godot, oldest first.
    pub closed spec fn packets(self) -> Seq<(i32, Seq<u8>)> {
        self.recv_packets@
    }

    /// `self` and `other` agree on everything.
    pub open spec fn same(self, other: Self) -> bool {
        &&& self.unique_spec() == other.unique_spec()
        &&& self.node_spec() == other.node_spec()
        &&& self.target() == other.target()
        &&& self.status_spec() == other.status_spec()
        &&& self.packets() == other.packets()
    }

    /// Starting the endpoint task for `port`: it binds the endpoint on IPv4 and on IPv6 to
    /// that port; the peer is connecting, with no id yet, broadcasting, nothing queued.
    pub fn bootstrap(port: u16) -> (r: (Self, BindPorts))
        ensures
            r.1.ipv4 == port,
            r.1.ipv6 == port,
            r.0.unique_spec() == 0,
            r.0.node_spec() is None,
            r.0.target() == 0,
            r.0.status_spec() == ConnectionStatus::Connecting,
            r.0.packets() == Seq::<(i32, Seq<u8>)>::empty(),
    {
        let peer = IrohMultiplayerPeer {
            unique_id: 0,
            node_id: None,
            target_peer: 0,
            status: ConnectionStatus::Connecting,
            recv_packets: PacketQueue::new(),
        };
        (peer, BindPorts { ipv4: port, ipv6: port })
    }

    /// Number of packets waiting for Godot.
    pub fn get_available_packet_count(&self) -> (n: i32)
        ensures
            n == self.packets().len() as i32,
    {
        self.recv_packets.len() as i32
    }

    /// The largest packet size announced to Godot.
    pub fn get_max_packet_size(&self) -> (n: i32)
        ensures
            n == MAX_PACKET_SIZE as i32,
    {
        MAX_PACKET_SIZE as i32
    }

    /// Every packet travels on channel 0.
    pub fn get_packet_channel(&self) -> (c: i32)
        ensures
            c == 0,
    {
        0
    }

    /// Every packet travels reliably.
    pub fn get_packet_mode(&self) -> (m: TransferMode)
        ensures
            m == TransferMode::Reliable,
    {
        TransferMode::Reliable
    }

    /// Channels are not supported: the request is ignored.
    pub fn set_transfer_channel(&mut self, _p_channel: i32)
        ensures
            final(self).same(*old(self)),
    {
    }

    /// Packets are always sent on channel 0.
    pub fn get_transfer_channel(&self) -> (c: i32)
        ensures
            c == 0,
    {
        0
    }

    /// Transfer modes are not supported: the request is ignored.
    pub fn set_transfer_mode(&mut self, _p_mode: TransferMode)
        ensures
            final(self).same(*old(self)),
    {
    }

    /// Packets are always sent reliably.
    pub fn get_transfer_mode(&self) -> (m: TransferMode)
        ensures
            m == TransferMode::Reliable,
    {
        TransferMode::Reliable
    }

    /// Addresses the next packets to `p_peer` (0: every peer).
    pub fn set_target_peer(&mut self, p_peer: i32)
        ensures
            final(self).target() == p_peer,
            final(self).unique_spec() == old(self).unique_spec(),
            final(self).node_spec() == old(self).node_spec(),
            final(self).status_spec() == old(self).status_spec(),
            final(self).packets() == old(self).packets(),
    {
        self.target_peer = p_peer;
    }

    /// Sender of the packet Godot reads next, -1 when none waits.
    pub fn get_packet_peer(&self) -> (id: i32)
        ensures
            id == (match front_sender_spec(self.packets()) {
                Some(s) => s,
                None => -1i32,
            }),
    {
        match self.recv_packets.front_sender() {
            Some(s) => s,
            None => -1,
        }
    }

    /// An iroh peer is never a standalone server: a game that needs an authority sets one in
    /// its own logic.
    pub fn is_server(&self) -> (b: bool)
        ensures
            !b,
    {
        false
    }

    /// Handles one event of the endpoint task and returns the signal Godot emits for it.
    pub fn poll(&mut self, event: ApiEvents) -> (sig: Option<PeerSignal>)
        ensures
            final(self).target() == old(self).target(),
            match event {
                ApiEvents::Bind { unique_id, node_id } => {
                    &&& sig == Some(PeerSignal::Bootstrapped)
                    &&& final(self).unique_spec() == unique_id
                    &&& final(self).node_spec() == Some(node_id@)
                    &&& final(self).status_spec() == ConnectionStatus::Connected
                    &&& final(self).packets() == old(self).packets()
                },
                ApiEvents::NewConnection(u) => sig == Some(PeerSignal::PeerConnected(u as i64))
                    && final(self).same(*old(self)),
                ApiEvents::LostConnection(u) => sig == Some(PeerSignal::PeerDisconnected(u as i64))
                    && final(self).same(*old(self)),
                ApiEvents::RecvPacket((u, p)) => {
                    &&& sig is None
                    &&& final(self).unique_spec() == old(self).unique_spec()
                    &&& final(self).node_spec() == old(self).node_spec()
                    &&& final(self).status_spec() == old(self).status_spec()
                    &&& final(self).packets() == old(self).packets().push((u, p@))
                },
            },
    {
        match event {
            ApiEvents::Bind { unique_id, node_id } => {
                self.unique_id = unique_id;
                self.node_id = Some(node_id);
                self.status = ConnectionStatus::Connected;
                Some(PeerSignal::Bootstrapped)
            },
            ApiEvents::NewConnection(unique) => Some(PeerSignal::PeerConnected(unique as i64)),
            ApiEvents::LostConnection(unique) => Some(PeerSignal::PeerDisconnected(unique as i64)),
            ApiEvents::RecvPacket((unique, packet)) => {
                self.recv_packets.push_back(unique, packet);
                None
            },
        }
    }

    /// Closing the peer shuts the endpoint down.
    pub fn close(&self) -> (c: ApiCommands)
        ensures
            c == ApiCommands::Close,
    {
        ApiCommands::Close
    }

    /// Disconnecting a peer asks the endpoint task to close its connection.
    pub fn disconnect_peer(&self, p_peer: i32, _p_force: bool) -> (c: ApiCommands)
        ensures
            c == ApiCommands::DisconnectNode(p_peer),
    {
        ApiCommands::DisconnectNode(p_peer)
    }

    /// The multiplayer id.
    pub fn get_unique_id(&self) -> (id: i32)
        ensures
            id == self.unique_spec(),
    {
        self.unique_id
    }

    /// The connection status reported to Godot.
    pub fn get_connection_status(&self) -> (s: ConnectionStatus)
        ensures
            s == self.status_spec(),
    {
        self.status
    }

    /// Hands the oldest packet to Godot; Godot only asks while a packet is available.
    pub fn get_packet_script(&mut self) -> (packet: Vec<u8>)
        requires
            old(self).packets().len() > 0,
        ensures
            packet@ == old(self).packets()[0].1,
            final(self).packets() == old(self).packets().drop_first(),
            final(self).unique_spec() == old(self).unique_spec(),
            final(self).node_spec() == old(self).node_spec(),
            final(self).status_spec() == old(self).status_spec(),
            final(self).target() == old(self).target(),
    {
        match self.recv_packets.pop_front() {
            Some((_, packet)) => packet,
            None => Vec::new(),
        }
    }

    /// Turns a packet from Godot into the command for the endpoint task: a broadcast for
    /// target 0, otherwise a packet for the target. Godot is always told it was taken.
    pub fn put_packet_script(&self, p_buffer: &[u8]) -> (r: (GodotError, ApiCommands))
        ensures
            r.0 == GodotError::NoError,
            self.target() == TARGET_PEER_BROADCAST ==> (r.1 matches ApiCommands::BroadcastPacket(p) && p@ == p_buffer@),
            self.target() != TARGET_PEER_BROADCAST ==> (r.1 matches ApiCommands::PushPacket { id, packet }
                && id == self.target() && packet@ == p_buffer@),
    {
        if self.target_peer == TARGET_PEER_BROADCAST {
            (GodotError::NoError, ApiCommands::BroadcastPacket(slice_to_vec(p_buffer)))
        } else {
            (GodotError::NoError, ApiCommands::PushPacket { id: self.target_peer, packet: slice_to_vec(p_buffer) })
        }
    }

    /// The command that joins the endpoint named by a z-base-32 endpoint id; `None` when the
    /// text names no endpoint (text too long for the decoder names none either).
    pub fn join(&self, node_addr: &str) -> (c: Option<ApiCommands>)
        ensures
            !z32_decodable_len(node_addr) ==> c is None,
            z32_decodable_len(node_addr) ==> match z32_endpoint_id(node_addr@) {
                Some(id) => c matches Some(ApiCommands::JoinNode(k)) && k@ == id,
                None => c is None,
            },
    {
        if node_addr.as_bytes().len() > usize::MAX / 8 {
            return None;
        }
        match z32_to_key_bytes(node_addr) {
            Some(node) => Some(ApiCommands::JoinNode(node)),
            None => None,
        }
    }

    /// The endpoint id as z-base-32 text, `NULL` before the endpoint is bound.
    pub fn local_node_id(&self) -> (s: String)
        ensures
            s@ == (match self.node_spec() {
                Some(n) => match endpoint_id_z32(n) {
                    Some(t) => t,
                    None => null_text(),
                },
                None => null_text(),
            }),
    {
        proof {
            reveal_strlit("NULL");
        }
        match &self.node_id {
            Some(id) => match key_bytes_to_z32(id) {
                Some(text) => text,
                None => String::from_str("NULL"),
            },
            None => String::from_str("NULL"),
        }
    }
}

} // verus!
