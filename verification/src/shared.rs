//! Types and pieces shared by every generation of the multiplayer peer: the queue of packets
//! waiting for Godot, the Godot-facing enumerations, and the four-byte peer-id handshake codec.
use std::collections::VecDeque;
use vstd::prelude::*;

verus! {

/// A packet as Godot's high-level multiplayer hands it over: raw bytes.
pub type Packet = Vec<u8>;

/// Godot's multiplayer peer id (1 is the authority, 0 addresses every peer).
pub type PeerId = i32;

/// A packet together with the id of the peer that sent it.
pub type RecvPacket = (PeerId, Packet);

/// Godot's `TARGET_PEER_BROADCAST`: a packet sent to this target goes to every peer.
pub const TARGET_PEER_BROADCAST: i32 = 0;

/// The multiplayer id Godot reserves for the authority ("server") of a session.
pub const SERVER_PEER_ID: i32 = 1;

/// Mirror of Godot's `MultiplayerPeer.ConnectionStatus`.
#[derive(Clone, Copy, Debug, PartialEq, Eq, Structural)]
pub enum ConnectionStatus {
    Disconnected,
    Connecting,
    Connected,
}

/// Mirror of Godot's `MultiplayerPeer.TransferMode`.
#[derive(Clone, Copy, Debug, PartialEq, Eq, Structural)]
pub enum TransferMode {
    Unreliable,
    UnreliableOrdered,
    Reliable,
}

/// The part of Godot's `Error` enumeration that a multiplayer peer returns.
#[derive(Clone, Copy, Debug, PartialEq, Eq, Structural)]
pub enum GodotError {
    NoError,
    ErrDoesNotExist,
}

/// A signal a peer asks Godot to emit.
#[derive(Clone, Copy, Debug, PartialEq, Eq, Structural)]
pub enum PeerSignal {
    /// `public_id_changed`: the router published (a new) public key.
    PublicIdChanged,
    /// `bootstrapped`: the endpoint task is up.
    Bootstrapped,
    /// `iroh_connected`: the iroh runtime reached the network.
    IrohConnected,
    /// `joined_gossip_topic(topic)`: the topic object is the subscription under this handle.
    JoinedTopic(u64),
    /// `peer_connected(id)`.
    PeerConnected(i64),
    /// `peer_disconnected(id)`.
    PeerDisconnected(i64),
}

/// The peers a packet from Godot goes to: every connected peer for the broadcast target,
/// otherwise the target alone when it is connected, and nobody when it is not.
pub open spec fn routed_to(connections: Seq<i32>, target: i32) -> Seq<i32> {
    if target == TARGET_PEER_BROADCAST {
        connections
    } else if connections.contains(target) {
        seq![target]
    } else {
        Seq::empty()
    }
}

/// The abstract content of a packet queue: senders and payloads, oldest first.
pub open spec fn packets_view(items: Seq<(i32, Vec<u8>)>) -> Seq<(i32, Seq<u8>)> {
    items.map_values(|e: (i32, Vec<u8>)| (e.0, e.1@))
}

/// First-in first-out queue of received packets, each with the id of its sender.
pub struct PacketQueue {
    items: VecDeque<(i32, Vec<u8>)>,
}

impl View for PacketQueue {
    type V = Seq<(i32, Seq<u8>)>;

    closed spec fn view(&self) -> Seq<(i32, Seq<u8>)> {
        packets_view(self.items@)
    }
}

/// The sender of the oldest queued packet, if there is one.
pub open spec fn front_sender_spec(q: Seq<(i32, Seq<u8>)>) -> Option<i32> {
    if q.len() > 0 {
        Some(q[0].0)
    } else {
        None
    }
}

impl PacketQueue {
    /// An empty queue.
    pub fn new() -> (q: Self)
        ensures
            q@ == Seq::<(i32, Seq<u8>)>::empty(),
    {
        let q = PacketQueue { items: VecDeque::new() };
        assert(q@ =~= Seq::<(i32, Seq<u8>)>::empty());
        q
    }

    /// Number of queued packets.
    pub fn len(&self) -> (n: usize)
        ensures
            n == self@.len(),
    {
        self.items.len()
    }

    /// Sender of the oldest packet, `None` when the queue is empty.
    pub fn front_sender(&self) -> (r: Option<i32>)
        ensures
            r == front_sender_spec(self@),
    {
        if self.items.len() > 0 {
            let sender = self.items[0].0;
            Some(sender)
        } else {
            None
        }
    }

    /// Appends a packet received from `sender`.
    pub fn push_back(&mut self, sender: i32, packet: Vec<u8>)
        ensures
            final(self)@ == old(self)@.push((sender, packet@)),
    {
        let ghost before = self.items@;
        self.items.push_back((sender, packet));
        assert(packets_view(self.items@) =~= packets_view(before).push((sender, packet@)));
    }

    /// Removes and returns the oldest packet.
    pub fn pop_front(&mut self) -> (r: Option<(i32, Vec<u8>)>)
        ensures
            old(self)@.len() == 0 ==> r is None && final(self)@ == old(self)@,
            old(self)@.len() > 0 ==> (r matches Some(p) && (p.0, p.1@) == old(self)@[0]
                && final(self)@ == old(self)@.drop_first()),
    {
        let ghost before = self.items@;
        let r = self.items.pop_front();
        proof {
            if before.len() > 0 {
                assert(packets_view(self.items@) =~= packets_view(before).drop_first());
            }
        }
        r
    }
}

/// The connections after `id` connected: an id that is already connected keeps its place,
/// a new one joins at the end.
pub open spec fn add_connection(connections: Seq<i32>, id: i32) -> Seq<i32> {
    if connections.contains(id) {
        connections
    } else {
        connections.push(id)
    }
}

/// Connecting a peer keeps every earlier connection, in its place, and adds only that peer:
/// afterwards exactly the earlier peers and the new one are connected, and a peer that was
/// already connected changes nothing.
pub proof fn law_connecting_keeps_every_connection(connections: Seq<i32>, id: i32)
    ensures
        forall|x: i32| #[trigger] add_connection(connections, id).contains(x) <==> (connections.contains(x) || x == id),
        add_connection(connections, id).take(connections.len() as int) == connections,
        connections.contains(id) ==> add_connection(connections, id) == connections,
        !connections.contains(id) ==> add_connection(connections, id).len() == connections.len() + 1,
{
    let after = add_connection(connections, id);
    assert(after.take(connections.len() as int) =~= connections);
    assert forall|x: i32| #[trigger] after.contains(x) <==> (connections.contains(x) || x == id) by {
        if connections.contains(x) {
            let k = choose|k: int| 0 <= k < connections.len() && connections[k] == x;
            assert(after[k] == x);
        }
        if x == id && !connections.contains(id) {
            assert(after[connections.len() as int] == id);
        }
        if after.contains(x) && !connections.contains(id) {
            let k = choose|k: int| 0 <= k < after.len() && after[k] == x;
            if k < connections.len() {
                assert(connections[k] == x);
            }
        }
    }
}

/// Packets reach Godot in the order they arrived: what was queued before a new packet is read
/// first and unchanged, the new packet is read after it, and the sender Godot is told about is
/// the sender of the packet it reads next.
pub proof fn law_queue_is_fifo(q: Seq<(i32, Seq<u8>)>, p: (i32, Seq<u8>))
    ensures
        q.push(p).len() == q.len() + 1,
        forall|i: int| 0 <= i < q.len() ==> #[trigger] q.push(p)[i] == q[i],
        q.push(p)[q.len() as int] == p,
        q.len() > 0 ==> q.push(p).drop_first() == q.drop_first().push(p),
        q.len() > 0 ==> front_sender_spec(q) == Some(q[0].0),
        q.len() == 0 ==> front_sender_spec(q.push(p)) == Some(p.0),
{
    if q.len() > 0 {
        assert(q.push(p).drop_first() =~= q.drop_first().push(p));
    }
}

/// A broadcast reaches every connected peer, and each exactly once.
pub proof fn law_broadcast_reaches_every_peer_once(connections: Seq<i32>)
    requires
        connections.no_duplicates(),
    ensures
        routed_to(connections, TARGET_PEER_BROADCAST).no_duplicates(),
        forall|id: i32| connections.contains(id) <==> routed_to(connections, TARGET_PEER_BROADCAST).contains(id),
{
}

/// A packet for a connected peer reaches that peer alone; one for a peer that is not
/// connected reaches nobody.
pub proof fn law_targeted_packet_reaches_only_its_target(connections: Seq<i32>, target: i32)
    requires
        target != TARGET_PEER_BROADCAST,
    ensures
        connections.contains(target) ==> routed_to(connections, target) == seq![target],
        !connections.contains(target) ==> routed_to(connections, target).len() == 0,
{
}

/// Once a peer has connected, a packet addressed to it reaches it, and connecting keeps every
/// connection distinct.
pub proof fn law_connected_peer_is_reachable(connections: Seq<i32>, id: i32)
    requires
        connections.no_duplicates(),
        id != TARGET_PEER_BROADCAST,
    ensures
        add_connection(connections, id).no_duplicates(),
        routed_to(add_connection(connections, id), id) == seq![id],
{
    if !connections.contains(id) {
        lemma_push_fresh_id(connections, id);
        assert(connections.push(id)[connections.len() as int] == id);
    }
}

/// After a peer was disconnected, no packet reaches it, whatever it is addressed to.
pub proof fn law_disconnected_peer_receives_nothing(connections: Seq<i32>, p: i32, target: i32)
    requires
        connections.no_duplicates(),
    ensures
        !routed_to(connections.remove_value(p), target).contains(p),
{
    connections.index_of_first_ensures(p);
    match connections.index_of_first(p) {
        Some(i) => {
            lemma_remove_unique_id(connections, i);
        },
        None => {},
    }
    if target != TARGET_PEER_BROADCAST && target == p {
        assert(!connections.remove_value(p).contains(p));
    }
}

// ---------------------------------------------------------------------------------------------
// The registry of connected peers: multiplayer id of each remote peer, with its endpoint id.
// ---------------------------------------------------------------------------------------------

/// The multiplayer ids of registry entries, in order.
pub open spec fn entry_ids(entries: Seq<(i32, Seq<u8>)>) -> Seq<i32> {
    entries.map_values(|e: (i32, Seq<u8>)| e.0)
}

/// The endpoint ids of registry entries, in order.
pub open spec fn entry_nodes(entries: Seq<(i32, Seq<u8>)>) -> Seq<Seq<u8>> {
    entries.map_values(|e: (i32, Seq<u8>)| e.1)
}

/// Where the entry of `id` stands, if there is one.
pub open spec fn entry_index(entries: Seq<(i32, Seq<u8>)>, id: i32) -> Option<int> {
    entry_ids(entries).index_of_first(id)
}

/// The entries after registering `id` at `node`: an existing entry of `id` is overwritten in
/// place, otherwise a new entry is appended.
pub open spec fn insert_entry(entries: Seq<(i32, Seq<u8>)>, id: i32, node: Seq<u8>) -> Seq<(i32, Seq<u8>)> {
    match entry_index(entries, id) {
        Some(i) => entries.update(i, (id, node)),
        None => entries.push((id, node)),
    }
}

/// The entries after forgetting `id`.
pub open spec fn remove_entry(entries: Seq<(i32, Seq<u8>)>, id: i32) -> Seq<(i32, Seq<u8>)> {
    match entry_index(entries, id) {
        Some(i) => entries.remove(i),
        None => entries,
    }
}

/// The endpoint id registered for `id`.
pub open spec fn entry_node(entries: Seq<(i32, Seq<u8>)>, id: i32) -> Option<Seq<u8>> {
    match entry_index(entries, id) {
        Some(i) => Some(entries[i].1),
        None => None,
    }
}

/// The connected remote peers, keyed by multiplayer id (at most one entry per id).
pub struct PeerRegistry {
    entries: Vec<(i32, [u8; 32])>,
}

impl View for PeerRegistry {
    type V = Seq<(i32, Seq<u8>)>;

    closed spec fn view(&self) -> Seq<(i32, Seq<u8>)> {
        self.entries@.map_values(|e: (i32, [u8; 32])| (e.0, e.1@))
    }
}

impl PeerRegistry {
    /// Well-formed: no multiplayer id has two entries.
    pub open spec fn wf(&self) -> bool {
        entry_ids(self@).no_duplicates()
    }

    /// An empty registry.
    pub fn new() -> (r: Self)
        ensures
            r@ == Seq::<(i32, Seq<u8>)>::empty(),
            r.wf(),
    {
        let r = PeerRegistry { entries: Vec::new() };
        assert(r@ =~= Seq::<(i32, Seq<u8>)>::empty());
        assert(entry_ids(r@) =~= Seq::<i32>::empty());
        r
    }

    /// Number of connected peers.
    pub fn len(&self) -> (n: usize)
        ensures
            n == self@.len(),
    {
        self.entries.len()
    }

    /// Position of the entry of `id`.
    fn find(&self, id: i32) -> (r: Option<usize>)
        ensures
            r matches Some(i) ==> entry_index(self@, id) == Some(i as int) && i < self@.len(),
            r is None ==> entry_index(self@, id) is None,
    {
        let mut i: usize = 0;
        while i < self.entries.len()
            invariant
                i <= self.entries@.len(),
                forall|j: int| 0 <= j < i ==> entry_ids(self@)[j] != id,
            decreases self.entries@.len() - i,
        {
            if self.entries[i].0 == id {
                proof {
                    entry_ids(self@).index_of_first_ensures(id);
                    assert(entry_ids(self@)[i as int] == id);
                }
                return Some(i);
            }
            i = i + 1;
        }
        proof {
            entry_ids(self@).index_of_first_ensures(id);
        }
        None
    }

    /// Whether `id` is connected.
    pub fn contains(&self, id: i32) -> (b: bool)
        ensures
            b == entry_ids(self@).contains(id),
    {
        proof {
            entry_ids(self@).index_of_first_ensures(id);
        }
        self.find(id).is_some()
    }

    /// The endpoint id of peer `id`, if it is connected.
    pub fn node_of(&self, id: i32) -> (r: Option<[u8; 32]>)
        ensures
            match entry_node(self@, id) {
                Some(n) => r matches Some(k) && k@ == n,
                None => r is None,
            },
    {
        match self.find(id) {
            Some(i) => Some(self.entries[i].1),
            None => None,
        }
    }

    /// Registers `id` at `node`, overwriting an earlier entry of `id`; tells whether there was one.
    pub fn insert(&mut self, id: i32, node: [u8; 32]) -> (replaced: bool)
        requires
            old(self).wf(),
        ensures
            final(self).wf(),
            replaced == entry_ids(old(self)@).contains(id),
            final(self)@ == insert_entry(old(self)@, id, node@),
    {
        proof {
            entry_ids(self@).index_of_first_ensures(id);
        }
        match self.find(id) {
            Some(i) => {
                self.entries.set(i, (id, node));
                proof {
                    assert(self@ =~= old(self)@.update(i as int, (id, node@)));
                    assert(entry_ids(self@) =~= entry_ids(old(self)@));
                }
                true
            },
            None => {
                self.entries.push((id, node));
                proof {
                    assert(self@ =~= old(self)@.push((id, node@)));
                    assert(entry_ids(self@) =~= entry_ids(old(self)@).push(id));
                    lemma_push_fresh_id(entry_ids(old(self)@), id);
                }
                false
            },
        }
    }

    /// Forgets peer `id`; returns its endpoint id when it was connected.
    pub fn remove(&mut self, id: i32) -> (r: Option<[u8; 32]>)
        requires
            old(self).wf(),
        ensures
            final(self).wf(),
            final(self)@ == remove_entry(old(self)@, id),
            !entry_ids(final(self)@).contains(id),
            match entry_node(old(self)@, id) {
                Some(n) => r matches Some(k) && k@ == n,
                None => r is None,
            },
    {
        proof {
            entry_ids(self@).index_of_first_ensures(id);
        }
        match self.find(id) {
            Some(i) => {
                let (_, node) = self.entries.remove(i);
                proof {
                    assert(self@ =~= old(self)@.remove(i as int));
                    assert(entry_ids(self@) =~= entry_ids(old(self)@).remove(i as int));
                    lemma_remove_unique_id(entry_ids(old(self)@), i as int);
                }
                Some(node)
            },
            None => None,
        }
    }

    /// The multiplayer ids of all connected peers, in registry order.
    pub fn ids(&self) -> (v: Vec<i32>)
        ensures
            v@ == entry_ids(self@),
    {
        let mut v: Vec<i32> = Vec::new();
        let mut i: usize = 0;
        while i < self.entries.len()
            invariant
                i <= self.entries@.len(),
                v@ == entry_ids(self@).take(i as int),
            decreases self.entries@.len() - i,
        {
            v.push(self.entries[i].0);
            proof {
                assert(entry_ids(self@).take(i as int + 1) =~= entry_ids(self@).take(i as int).push(self.entries@[i as int].0));
            }
            i = i + 1;
        }
        proof {
            assert(entry_ids(self@).take(self@.len() as int) =~= entry_ids(self@));
        }
        v
    }

    /// The endpoint ids of all connected peers, in registry order.
    pub fn nodes(&self) -> (v: Vec<[u8; 32]>)
        ensures
            v@.map_values(|k: [u8; 32]| k@) == entry_nodes(self@),
    {
        let mut v: Vec<[u8; 32]> = Vec::new();
        let mut i: usize = 0;
        while i < self.entries.len()
            invariant
                i <= self.entries@.len(),
                v@.map_values(|k: [u8; 32]| k@) == entry_nodes(self@).take(i as int),
            decreases self.entries@.len() - i,
        {
            let ghost before = v@;
            v.push(self.entries[i].1);
            proof {
                assert(v@.map_values(|k: [u8; 32]| k@) =~= before.map_values(|k: [u8; 32]| k@).push(self.entries@[i as int].1@));
                assert(entry_nodes(self@).take(i as int + 1) =~= entry_nodes(self@).take(i as int).push(self.entries@[i as int].1@));
            }
            i = i + 1;
        }
        proof {
            assert(entry_nodes(self@).take(self@.len() as int) =~= entry_nodes(self@));
        }
        v
    }

    /// Forgets every peer and returns the multiplayer ids it held.
    pub fn clear(&mut self) -> (ids: Vec<i32>)
        ensures
            ids@ == entry_ids(old(self)@),
            final(self)@ == Seq::<(i32, Seq<u8>)>::empty(),
            final(self).wf(),
    {
        let ids = self.ids();
        self.entries = Vec::new();
        proof {
            assert(self@ =~= Seq::<(i32, Seq<u8>)>::empty());
            assert(entry_ids(self@) =~= Seq::<i32>::empty());
        }
        ids
    }
}

/// Appending an id that does not occur keeps ids distinct.
pub proof fn lemma_push_fresh_id(s: Seq<i32>, x: i32)
    requires
        s.no_duplicates(),
        !s.contains(x),
    ensures
        s.push(x).no_duplicates(),
{
    assert forall|a: int, b: int| 0 <= a < s.push(x).len() && 0 <= b < s.push(x).len() && a != b
        implies s.push(x)[a] != s.push(x)[b] by {
        if a == s.len() {
            assert(s[b] == s.push(x)[b]);
        } else if b == s.len() {
            assert(s[a] == s.push(x)[a]);
        }
    }
}

/// Removing one id from distinct ids keeps them distinct and drops that id.
pub proof fn lemma_remove_unique_id(s: Seq<i32>, i: int)
    requires
        s.no_duplicates(),
        0 <= i < s.len(),
    ensures
        s.remove(i).no_duplicates(),
        !s.remove(i).contains(s[i]),
{
    assert forall|a: int, b: int| 0 <= a < s.remove(i).len() && 0 <= b < s.remove(i).len() && a != b
        implies s.remove(i)[a] != s.remove(i)[b] by {
        let ia = if a < i { a } else { a + 1 };
        let ib = if b < i { b } else { b + 1 };
        assert(s.remove(i)[a] == s[ia]);
        assert(s.remove(i)[b] == s[ib]);
    }
    if s.remove(i).contains(s[i]) {
        let k = choose|k: int| 0 <= k < s.remove(i).len() && s.remove(i)[k] == s[i];
        let ik = if k < i { k } else { k + 1 };
        assert(s[ik] == s[i]);
    }
}

/// The registry reads back what was written: after registering `id` at `node`, `id` is
/// registered at `node`, every other peer keeps its endpoint, and ids stay distinct.
pub proof fn law_registry_read_after_insert(entries: Seq<(i32, Seq<u8>)>, id: i32, node: Seq<u8>, other: i32)
    requires
        entry_ids(entries).no_duplicates(),
        other != id,
    ensures
        entry_ids(insert_entry(entries, id, node)).no_duplicates(),
        entry_node(insert_entry(entries, id, node), id) == Some(node),
        entry_node(insert_entry(entries, id, node), other) == entry_node(entries, other),
{
    let ids = entry_ids(entries);
    let after = insert_entry(entries, id, node);
    ids.index_of_first_ensures(id);
    ids.index_of_first_ensures(other);
    match ids.index_of_first(id) {
        Some(i) => {
            assert(entry_ids(after) =~= ids);
        },
        None => {
            assert(entry_ids(after) =~= ids.push(id));
            lemma_push_fresh_id(ids, id);
        },
    }
    let ids2 = entry_ids(after);
    ids2.index_of_first_ensures(id);
    ids2.index_of_first_ensures(other);
    assert(ids2[entry_index(entries, id).unwrap_or(ids.len() as int)] == id);
    match ids.index_of_first(other) {
        Some(k) => {
            assert(ids2[k] == other);
            lemma_index_of_first_unique(ids2, other, k);
        },
        None => {
            if ids2.contains(other) {
                let k = choose|k: int| 0 <= k < ids2.len() && ids2[k] == other;
                if k < ids.len() {
                    assert(ids[k] == other);
                }
            }
        },
    }
    lemma_index_of_first_unique(ids2, id, entry_index(entries, id).unwrap_or(ids.len() as int));
}

/// After forgetting `id`, it is no longer registered, every other peer keeps its endpoint,
/// and ids stay distinct.
pub proof fn law_registry_read_after_remove(entries: Seq<(i32, Seq<u8>)>, id: i32, other: i32)
    requires
        entry_ids(entries).no_duplicates(),
        other != id,
    ensures
        entry_ids(remove_entry(entries, id)).no_duplicates(),
        entry_node(remove_entry(entries, id), id) is None,
        entry_node(remove_entry(entries, id), other) == entry_node(entries, other),
{
    let ids = entry_ids(entries);
    let after = remove_entry(entries, id);
    ids.index_of_first_ensures(id);
    ids.index_of_first_ensures(other);
    match ids.index_of_first(id) {
        Some(i) => {
            assert(entry_ids(after) =~= ids.remove(i));
            lemma_remove_unique_id(ids, i);
        },
        None => {},
    }
    let ids2 = entry_ids(after);
    ids2.index_of_first_ensures(id);
    ids2.index_of_first_ensures(other);
    match ids.index_of_first(other) {
        Some(k) => {
            match ids.index_of_first(id) {
                Some(i) => {
                    let k2 = if k < i { k } else { k - 1 };
                    assert(ids2[k2] == other);
                    lemma_index_of_first_unique(ids2, other, k2);
                },
                None => {
                    lemma_index_of_first_unique(ids2, other, k);
                },
            }
        },
        None => {
            if ids2.contains(other) {
                let k = choose|k: int| 0 <= k < ids2.len() && ids2[k] == other;
                match ids.index_of_first(id) {
                    Some(i) => {
                        let k2 = if k < i { k } else { k + 1 };
                        assert(ids[k2] == other);
                    },
                    None => {},
                }
            }
        },
    }
}

/// In a sequence without duplicates, the first position of an element is its only position.
proof fn lemma_index_of_first_unique(s: Seq<i32>, x: i32, k: int)
    requires
        s.no_duplicates(),
        0 <= k < s.len(),
        s[k] == x,
    ensures
        s.index_of_first(x) == Some(k),
{
    s.index_of_first_ensures(x);
}

// ---------------------------------------------------------------------------------------------
// Random multiplayer ids.
// ---------------------------------------------------------------------------------------------

/// Calls `fastrand::i32(lo..hi)`, which the crate documents as "a random `i32` in the given
/// range" that panics on an empty range. Claimed: `lo <= r < hi`; which value comes back is
/// left open.
#[verifier::external_body]
pub(crate) fn fastrand_i32(lo: i32, hi: i32) -> (r: i32)
    requires
        lo < hi,
    ensures
        lo <= r < hi,
{
    fastrand::i32(lo..hi)
}

/// Whether `id` can name a remote peer that picked its own id: positive, neither the broadcast
/// target nor the authority, and below `i32::MAX`.
pub open spec fn is_assignable_peer_id(id: i32) -> bool {
    2 <= id < i32::MAX
}

/// A fresh random multiplayer id for a non-authority peer, drawn from `2..i32::MAX`.
pub fn random_peer_id() -> (id: i32)
    ensures
        is_assignable_peer_id(id),
        id != TARGET_PEER_BROADCAST,
        id != SERVER_PEER_ID,
{
    fastrand_i32(2, i32::MAX)
}

// ---------------------------------------------------------------------------------------------
// The peer-id handshake: a multiplayer id travels as four big-endian bytes (tokio's
// `write_i32` / `read_i32` layout).
// ---------------------------------------------------------------------------------------------

/// The four big-endian bytes of `x` in two's complement.
pub open spec fn i32_be_bytes(x: i32) -> Seq<u8> {
    let u = x as u32;
    seq![(u >> 24u32) as u8, (u >> 16u32) as u8, (u >> 8u32) as u8, u as u8]
}

/// The two's-complement integer that four big-endian bytes spell.
pub open spec fn i32_from_be(b: Seq<u8>) -> i32
    recommends
        b.len() == 4,
{
    (((b[0] as u32) << 24u32) | ((b[1] as u32) << 16u32) | ((b[2] as u32) << 8u32) | (b[3] as u32)) as i32
}

/// Encodes a multiplayer id for the handshake.
pub fn peer_id_to_bytes(id: i32) -> (b: [u8; 4])
    ensures
        b@ == i32_be_bytes(id),
{
    let u = id as u32;
    let b = [(u >> 24u32) as u8, (u >> 16u32) as u8, (u >> 8u32) as u8, u as u8];
    assert(b@ =~= i32_be_bytes(id));
    b
}

/// Decodes a multiplayer id received in the handshake.
pub fn peer_id_from_bytes(b: [u8; 4]) -> (id: i32)
    ensures
        id == i32_from_be(b@),
{
    ((((b[0] as u32) << 24u32) | ((b[1] as u32) << 16u32) | ((b[2] as u32) << 8u32) | (b[3] as u32)) as i32)
}

/// What one side of the handshake writes, the other side reads back unchanged: for every id,
/// decoding its four big-endian bytes gives the id again.
pub proof fn lemma_peer_id_roundtrip(id: i32)
    ensures
        i32_be_bytes(id).len() == 4,
        i32_from_be(i32_be_bytes(id)) == id,
{
    let u = id as u32;
    assert(((((u >> 24u32) as u8) as u32) << 24u32 | (((u >> 16u32) as u8) as u32) << 16u32
        | (((u >> 8u32) as u8) as u32) << 8u32 | ((u as u8) as u32)) == u) by (bit_vector);
    assert((id as u32) as i32 == id) by (bit_vector);
}

/// Distinct ids never share an encoding, so the receiver can tell every sender apart.
pub proof fn lemma_peer_id_encoding_injective(a: i32, b: i32)
    requires
        i32_be_bytes(a) == i32_be_bytes(b),
    ensures
        a == b,
{
    lemma_peer_id_roundtrip(a);
    lemma_peer_id_roundtrip(b);
}

} // verus!
