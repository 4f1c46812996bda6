//! A Godot `MultiplayerPeerExtension` on top of iroh, as a verified state machine.
//!
//! Godot drives a multiplayer peer by calls (`poll`, `put_packet_script`, ...) and the iroh
//! side reports what happened on the network through events. Every decision a peer takes —
//! which packets wait for Godot and in which order, which connection a packet goes to, which
//! signal to emit, how ids and lengths are framed on the wire — is a function of this crate
//! with a contract. The driver that owns the sockets, the async runtime and the Godot objects
//! hands events in and carries the returned actions out.
//!
//! The crate root holds the peer that the extension registers with Godot; the modules hold the
//! other protocol generations of the project and the pieces they share.
pub mod api;
pub mod extension;
pub mod iroh_godot_protocol;
pub mod keys;
pub mod messages;
pub mod multiplayer_peer;
pub mod network;
pub mod proto;
pub mod protocol;
pub mod shared;

use crate::shared::{
    add_connection, front_sender_spec, routed_to, i32_be_bytes, i32_from_be, peer_id_from_bytes, peer_id_to_bytes,
    lemma_push_fresh_id, lemma_remove_unique_id, ConnectionStatus, GodotError, PacketQueue, PeerSignal, TransferMode, SERVER_PEER_ID,
    TARGET_PEER_BROADCAST,
};
use crate::keys::{hex_lower, public_key_hex};
use vstd::prelude::*;
use vstd::slice::slice_to_vec;

verus! {

/// The largest packet the peer announces to Godot.
pub const MAX_PACKET_SIZE: i32 = 2048;

/// The size of the buffers packets are read into on a stream.
pub const MAX_ALLOWED_PACKET_SIZE: usize = 2048;

/// Events the iroh router reports to the peer.
pub enum IrohRouterEvents {
    /// The endpoint is bound; this is its public key.
    NewPublicId([u8; 32]),
    /// A remote peer connected and introduced itself with this multiplayer id.
    NewConnectionAccepted { multiplayer_id: i32 },
}

/// Events a single connection reports to the peer.
pub enum IrohConnectionEvents {
    /// A whole packet arrived on the connection.
    RecvPacket(Vec<u8>),
}

/// Commands the peer sends to a single connection.
pub enum IrohConnectionCommands {
    /// Send this packet to the remote peer.
    PushPacket(Vec<u8>),
    /// Close the connection.
    Close,
}

/// A command addressed to the connection of one remote peer.
pub struct Dispatch {
    pub to: i32,
    pub command: IrohConnectionCommands,
}

/// `d` sends exactly `packet` to peer `to`.
pub open spec fn is_push_to(d: Dispatch, to: i32, packet: Seq<u8>) -> bool {
    &&& d.to == to
    &&& d.command matches IrohConnectionCommands::PushPacket(p)
    &&& p@ == packet
}

/// The peer registered with Godot: it owns an iroh router, one connection per remote peer and
/// the queue of packets Godot has not read yet.
pub struct IrohMultiplayerPeer {
    id: i32,
    status: ConnectionStatus,
    router_events: bool,
    router_connections: Vec<i32>,
    packets: PacketQueue,
    router_target: i32,
    router_pub_key: Option<[u8; 32]>,
}

impl IrohMultiplayerPeer {
    /// Well-formed: each remote peer has at most one connection.
    pub open spec fn wf(self) -> bool {
        self.connections().no_duplicates()
    }

    /// The multiplayer id of this peer (-1 before an instance was created).
    pub closed spec fn id_spec(self) -> i32 {
        self.id
    }

    /// The connection status reported to Godot.
    pub closed spec fn status_spec(self) -> ConnectionStatus {
        self.status
    }

    /// Whether the peer listens to a router (an instance was created).
    pub closed spec fn listening(self) -> bool {
        self.router_events
    }

    /// The multiplayer ids of the connected remote peers, oldest connection first.
    pub closed spec fn connections(self) -> Seq<i32> {
        self.router_connections@
    }

    /// The packets waiting for Godot, oldest first.
    pub closed spec fn packets(self) -> Seq<(i32, Seq<u8>)> {
        self.packets@
    }

    /// The peer Godot addresses its next packets to.
    pub closed spec fn target(self) -> i32 {
        self.router_target
    }

    /// The public key of the router, once it is known.
    pub closed spec fn public_key(self) -> Option<Seq<u8>> {
        match self.router_pub_key {
            Some(k) => Some(k@),
            None => None,
        }
    }

    /// `self` and `other` agree on everything but the packet queue.
    pub open spec fn same_but_packets(self, other: Self) -> bool {
        &&& self.id_spec() == other.id_spec()
        &&& self.status_spec() == other.status_spec()
        &&& self.listening() == other.listening()
        &&& self.connections() == other.connections()
        &&& self.target() == other.target()
        &&& self.public_key() == other.public_key()
    }

    /// `self` and `other` agree on everything.
    pub open spec fn same(self, other: Self) -> bool {
        &&& self.same_but_packets(other)
        &&& self.packets() == other.packets()
    }

    /// A fresh peer: no id, disconnected, no router, nothing queued, broadcasting.
    pub fn init() -> (p: Self)
        ensures
            p.wf(),
            p.id_spec() == -1,
            p.status_spec() == ConnectionStatus::Disconnected,
            !p.listening(),
            p.connections() == Seq::<i32>::empty(),
            p.packets() == Seq::<(i32, Seq<u8>)>::empty(),
            p.target() == 0,
            p.public_key() is None,
    {
        IrohMultiplayerPeer {
            id: -1,
            status: ConnectionStatus::Disconnected,
            router_events: false,
            router_connections: Vec::new(),
            packets: PacketQueue::new(),
            router_target: 0,
            router_pub_key: None,
        }
    }

    /// Number of packets waiting for Godot.
    pub fn get_available_packet_count(&self) -> (n: i32)
        ensures
            n == self.packets().len() as i32,
    {
        self.packets.len() as i32
    }

    /// The largest packet size announced to Godot.
    pub fn get_max_packet_size(&self) -> (n: i32)
        ensures
            n == MAX_PACKET_SIZE,
    {
        MAX_PACKET_SIZE
    }

    /// Every packet travels on channel 0.
    pub fn get_packet_channel(&self) -> (c: i32)
        ensures
            c == 0,
    {
        0
    }

    /// Every packet travels reliably.
    pub fn get_packet_mode(&self) -> (m: TransferMode)
        ensures
            m == TransferMode::Reliable,
    {
        TransferMode::Reliable
    }

    /// Channels are not supported: the request is ignored.
    pub fn set_transfer_channel(&mut self, _p_channel: i32)
        ensures
            final(self).same(*old(self)),
    {
    }

    /// Packets are always sent on channel 0.
    pub fn get_transfer_channel(&self) -> (c: i32)
        ensures
            c == 0,
    {
        0
    }

    /// Transfer modes are not supported: the request is ignored.
    pub fn set_transfer_mode(&mut self, _p_mode: TransferMode)
        ensures
            final(self).same(*old(self)),
    {
    }

    /// Packets are always sent reliably.
    pub fn get_transfer_mode(&self) -> (m: TransferMode)
        ensures
            m == TransferMode::Reliable,
    {
        TransferMode::Reliable
    }

    /// Addresses the next packets to `p_peer` (0: every peer).
    pub fn set_target_peer(&mut self, p_peer: i32)
        ensures
            final(self).target() == p_peer,
            final(self).id_spec() == old(self).id_spec(),
            final(self).status_spec() == old(self).status_spec(),
            final(self).listening() == old(self).listening(),
            final(self).connections() == old(self).connections(),
            final(self).packets() == old(self).packets(),
            final(self).public_key() == old(self).public_key(),
    {
        self.router_target = p_peer;
    }

    /// Sender of the packet Godot reads next, -1 when none waits.
    pub fn get_packet_peer(&self) -> (id: i32)
        ensures
            id == (match front_sender_spec(self.packets()) {
                Some(s) => s,
                None => -1i32,
            }),
    {
        match self.packets.front_sender() {
            Some(s) => s,
            None => -1,
        }
    }

    /// The peer is the session's authority exactly when its id is 1.
    pub fn is_server(&self) -> (b: bool)
        ensures
            b == (self.id_spec() == SERVER_PEER_ID),
    {
        self.id == SERVER_PEER_ID
    }

    /// Whether `poll` has a router to listen to.
    pub fn listens_for_router_events(&self) -> (b: bool)
        ensures
            b == self.listening(),
    {
        self.router_events
    }

    /// Handles one event of the router and returns the signal Godot emits for it.
    ///
    /// A public key is stored; replacing an earlier key marks the peer connected. A new
    /// connection replaces any earlier connection of the same remote peer.
    pub fn poll_router_event(&mut self, event: IrohRouterEvents) -> (sig: PeerSignal)
        requires
            old(self).wf(),
        ensures
            final(self).wf(),
            final(self).packets() == old(self).packets(),
            final(self).id_spec() == old(self).id_spec(),
            final(self).listening() == old(self).listening(),
            final(self).target() == old(self).target(),
            match event {
                IrohRouterEvents::NewPublicId(key) => {
                    &&& sig == PeerSignal::PublicIdChanged
                    &&& final(self).public_key() == Some(key@)
                    &&& final(self).connections() == old(self).connections()
                    &&& final(self).status_spec() == (if old(self).public_key() is Some {
                        ConnectionStatus::Connected
                    } else {
                        old(self).status_spec()
                    })
                },
                IrohRouterEvents::NewConnectionAccepted { multiplayer_id } => {
                    &&& sig == PeerSignal::PeerConnected(multiplayer_id as i64)
                    &&& final(self).public_key() == old(self).public_key()
                    &&& final(self).status_spec() == old(self).status_spec()
                    &&& final(self).connections() == add_connection(old(self).connections(), multiplayer_id)
                },
            },
    {
        match event {
            IrohRouterEvents::NewPublicId(key) => {
                let had_key = self.router_pub_key.is_some();
                self.router_pub_key = Some(key);
                if had_key {
                    self.status = ConnectionStatus::Connected;
                }
                PeerSignal::PublicIdChanged
            },
            IrohRouterEvents::NewConnectionAccepted { multiplayer_id } => {
                let known = contains_id(&self.router_connections, multiplayer_id);
                if !known {
                    self.router_connections.push(multiplayer_id);
                    proof {
                        lemma_push_fresh_id(old(self).router_connections@, multiplayer_id);
                    }
                }
                PeerSignal::PeerConnected(multiplayer_id as i64)
            },
        }
    }

    /// Queues a packet that arrived on the connection of peer `id`.
    pub fn poll_connection_event(&mut self, id: i32, event: IrohConnectionEvents)
        ensures
            final(self).same_but_packets(*old(self)),
            match event {
                IrohConnectionEvents::RecvPacket(p) => final(self).packets() == old(self).packets().push((id, p@)),
            },
    {
        match event {
            IrohConnectionEvents::RecvPacket(packet) => {
                self.packets.push_back(id, packet);
            },
        }
    }

    /// Forgets the connection of `p_peer`; when there was one, returns the command that
    /// closes it.
    pub fn disconnect_peer(&mut self, p_peer: i32, _p_force: bool) -> (r: Option<Dispatch>)
        requires
            old(self).wf(),
        ensures
            final(self).wf(),
            r is Some <==> old(self).connections().contains(p_peer),
            r matches Some(d) ==> d.to == p_peer && d.command is Close,
            !final(self).connections().contains(p_peer),
            final(self).connections() == old(self).connections().remove_value(p_peer),
            final(self).packets() == old(self).packets(),
            final(self).id_spec() == old(self).id_spec(),
            final(self).status_spec() == old(self).status_spec(),
            final(self).listening() == old(self).listening(),
            final(self).target() == old(self).target(),
            final(self).public_key() == old(self).public_key(),
    {
        match index_of_id(&self.router_connections, p_peer) {
            Some(i) => {
                proof {
                    old(self).router_connections@.index_of_first_ensures(p_peer);
                    let k = old(self).router_connections@.index_of_first(p_peer)->0;
                    assert(0 <= k < old(self).router_connections@.len());
                    assert(k == i as int);
                }
                self.router_connections.remove(i);
                proof {
                    assert(self.router_connections@ =~= old(self).router_connections@.remove_value(p_peer));
                    lemma_remove_unique_id(old(self).router_connections@, i as int);
                }
                Some(Dispatch { to: p_peer, command: IrohConnectionCommands::Close })
            },
            None => {
                proof {
                    old(self).router_connections@.index_of_first_ensures(p_peer);
                    assert(self.router_connections@ =~= old(self).router_connections@.remove_value(p_peer));
                }
                None
            },
        }
    }

    /// The multiplayer id of this peer.
    pub fn get_unique_id(&self) -> (id: i32)
        ensures
            id == self.id_spec(),
    {
        self.id
    }

    /// The connection status reported to Godot.
    pub fn get_connection_status(&self) -> (s: ConnectionStatus)
        ensures
            s == self.status_spec(),
    {
        self.status
    }

    /// Hands the oldest packet to Godot; an empty packet when none waits.
    pub fn get_packet_script(&mut self) -> (packet: Vec<u8>)
        ensures
            final(self).same_but_packets(*old(self)),
            old(self).packets().len() == 0 ==> packet@ == Seq::<u8>::empty() && final(self).packets() == old(self).packets(),
            old(self).packets().len() > 0 ==> packet@ == old(self).packets()[0].1
                && final(self).packets() == old(self).packets().drop_first(),
    {
        match self.packets.pop_front() {
            Some((_, packet)) => packet,
            None => Vec::new(),
        }
    }

    /// Routes a packet from Godot: to every connection when the target is 0, otherwise to
    /// the target's connection if there is one. Godot is always told the packet was taken.
    pub fn put_packet_script(&self, p_buffer: &[u8]) -> (r: (GodotError, Vec<Dispatch>))
        ensures
            r.0 == GodotError::NoError,
            r.1@.len() == routed_to(self.connections(), self.target()).len(),
            forall|i: int| 0 <= i < r.1@.len()
                ==> is_push_to(#[trigger] r.1@[i], routed_to(self.connections(), self.target())[i], p_buffer@),
    {
        let mut out: Vec<Dispatch> = Vec::new();
        if self.router_target == TARGET_PEER_BROADCAST {
            let n = self.router_connections.len();
            let mut i: usize = 0;
            while i < n
                invariant
                    n == self.router_connections@.len(),
                    i <= n,
                    out@.len() == i,
                    forall|j: int| 0 <= j < i ==> is_push_to(#[trigger] out@[j], self.router_connections@[j], p_buffer@),
                decreases n - i,
            {
                let to = self.router_connections[i];
                out.push(Dispatch { to, command: IrohConnectionCommands::PushPacket(slice_to_vec(p_buffer)) });
                i = i + 1;
            }
        } else if contains_id(&self.router_connections, self.router_target) {
            out.push(Dispatch {
                to: self.router_target,
                command: IrohConnectionCommands::PushPacket(slice_to_vec(p_buffer)),
            });
        }
        (GodotError::NoError, out)
    }

    /// Starts an instance: the peer takes multiplayer id 1 (it is the authority), waits for
    /// its router, and returns the id the router announces to remote peers.
    pub fn create_instance(&mut self) -> (multiplayer_id: i32)
        ensures
            multiplayer_id == SERVER_PEER_ID,
            final(self).id_spec() == SERVER_PEER_ID,
            final(self).status_spec() == ConnectionStatus::Connecting,
            final(self).listening(),
            final(self).connections() == old(self).connections(),
            final(self).packets() == old(self).packets(),
            final(self).target() == old(self).target(),
            final(self).public_key() == old(self).public_key(),
    {
        let multiplayer_id = SERVER_PEER_ID;
        self.id = multiplayer_id;
        self.status = ConnectionStatus::Connecting;
        self.router_events = true;
        multiplayer_id
    }

    /// The router's public key as lower-case hex, empty while it is unknown.
    pub fn get_public_id(&self) -> (s: String)
        ensures
            s@ == (match self.public_key() {
                Some(k) => hex_lower(k),
                None => Seq::<char>::empty(),
            }),
    {
        match &self.router_pub_key {
            Some(key) => public_key_hex(key),
            None => String::new(),
        }
    }
}

/// Whether `id` occurs in `ids`.
fn contains_id(ids: &Vec<i32>, id: i32) -> (b: bool)
    ensures
        b == ids@.contains(id),
{
    let mut i: usize = 0;
    while i < ids.len()
        invariant
            i <= ids@.len(),
            forall|j: int| 0 <= j < i ==> ids@[j] != id,
        decreases ids@.len() - i,
    {
        if ids[i] == id {
            return true;
        }
        i = i + 1;
    }
    false
}

/// The first position of `id` in `ids`.
fn index_of_id(ids: &Vec<i32>, id: i32) -> (r: Option<usize>)
    ensures
        r matches Some(i) ==> ids@.index_of_first(id) == Some(i as int),
        r is None ==> ids@.index_of_first(id) is None,
{
    let mut i: usize = 0;
    while i < ids.len()
        invariant
            i <= ids@.len(),
            forall|j: int| 0 <= j < i ==> ids@[j] != id,
        decreases ids@.len() - i,
    {
        if ids[i] == id {
            proof {
                ids@.index_of_first_ensures(id);
            }
            return Some(i);
        }
        i = i + 1;
    }
    proof {
        ids@.index_of_first_ensures(id);
    }
    None
}

// ---------------------------------------------------------------------------------------------
// Framing on a connection: a packet is announced by its length as a big-endian i32 on one
// stream, then sent whole on the next.
// ---------------------------------------------------------------------------------------------

/// The length header that announces `packet` (its length as a wrapping `i32`).
pub fn packet_length_header(packet: &[u8]) -> (h: [u8; 4])
    ensures
        h@ == i32_be_bytes(packet@.len() as i32),
{
    peer_id_to_bytes(packet.len() as i32)
}

/// The packet size a received length header announces (a negative length wraps around).
pub fn packet_size_from_header(header: [u8; 4]) -> (n: usize)
    ensures
        n == i32_from_be(header@) as usize,
{
    peer_id_from_bytes(header) as usize
}

/// A packet of at most `i32::MAX` bytes is announced with exactly its length.
pub proof fn lemma_length_header_roundtrip(len: usize)
    requires
        len <= i32::MAX,
    ensures
        i32_from_be(i32_be_bytes(len as i32)) as usize == len,
{
    crate::shared::lemma_peer_id_roundtrip(len as i32);
}

} // verus!
