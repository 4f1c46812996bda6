//! The mesh protocol of the endpoint task: every peer keeps a registry of the peers it is
//! connected to; a joining peer asks the first peer it reaches for everybody else, connects to
//! each of them too, and packets travel length-prefixed on one stream per connection.
use crate::api::{ApiCommands, ApiEvents};
use crate::shared::{
    entry_ids, entry_node, entry_nodes, insert_entry, is_assignable_peer_id, random_peer_id,
    remove_entry, PeerRegistry,
};
use vstd::prelude::*;
use vstd::slice::slice_to_vec;

verus! {

/// The largest packet the peer announces to Godot.
pub const MAX_PACKET_SIZE: usize = 256;

/// Room for the `Connecting` message a joining peer sends.
pub const CONNECT_BUFFER_SIZE: usize = 32;

/// Room for the `Accepting` message a peer answers with.
pub const ACCEPT_BUFFER_SIZE: usize = 4096;

/// First message of a joining peer: its multiplayer id, and whether it wants the ids of the
/// peers the other side is connected to.
pub struct Connecting {
    pub id: i32,
    pub request_nodes: bool,
}

/// Answer to `Connecting`: the multiplayer id of the answering peer and, when asked for, the
/// endpoint ids of its connected peers.
pub struct Accepting {
    pub id: i32,
    pub nodes: Option<Vec<[u8; 32]>>,
}

/// Command for the task that serves one connection.
pub enum ProtoCommand {
    PushPacket(Vec<u8>),
}

/// An answer in the course of a join.
pub enum JoinReply {
    /// Connecting to the endpoint, or opening the stream to it, failed.
    Failed,
    /// The endpoint answered; its `Accepting`, when the answer reads as one.
    Answered(Option<Accepting>),
}

/// A connection a join step keeps.
pub struct JoinKeep {
    /// The multiplayer id it is kept under.
    pub id: i32,
    /// Whether it is the first peer's connection; otherwise it is the one that just answered.
    pub first: bool,
    /// The event that tells Godot about it.
    pub event: ApiEvents,
}

/// What a join does next.
pub enum JoinNext {
    /// Connect to `node` and introduce this peer with `hello`, then hand the answer to
    /// `join_step`; `first` marks the first peer, whose connection is kept until a step keeps
    /// it.
    Contact { node: [u8; 32], hello: Connecting, first: bool },
    /// The join is over.
    Done,
    /// A connection failed: the join ends with that failure.
    Abort,
}

/// One step of a join: the connections to keep, in this order, and what comes next.
pub struct JoinStep {
    pub keep: Vec<JoinKeep>,
    pub next: JoinNext,
}

/// Where a join stands: the first peer it went through, and, once that peer answered, the
/// multiplayer id it answered with, the endpoints it listed and which of them is being
/// contacted.
pub struct Join {
    first: [u8; 32],
    first_id: Option<i32>,
    contacts: Vec<[u8; 32]>,
    at: usize,
}

impl Join {
    /// The endpoint the join went through first.
    pub closed spec fn first_node(self) -> Seq<u8> {
        self.first@
    }

    /// The multiplayer id the first peer answered with; `None` while its answer is awaited.
    pub closed spec fn first_answer(self) -> Option<i32> {
        self.first_id
    }

    /// The endpoints the first peer listed.
    pub closed spec fn contacts(self) -> Seq<Seq<u8>> {
        self.contacts@.map_values(|k: [u8; 32]| k@)
    }

    /// Which of the listed endpoints is being contacted.
    pub closed spec fn at(self) -> int {
        self.at as int
    }

    /// Well-formed: while the first answer is awaited nothing is listed; afterwards a listed
    /// endpoint is being contacted.
    pub open spec fn wf(self) -> bool {
        &&& self.first_answer() is None ==> self.contacts().len() == 0 && self.at() == 0
        &&& self.first_answer() is Some ==> 0 <= self.at() < self.contacts().len()
    }
}

/// `k` keeps a connection under `id` (the first peer's when `first`) and announces it.
pub open spec fn keeps(k: JoinKeep, id: i32, first: bool) -> bool {
    &&& k.id == id
    &&& k.first == first
    &&& k.event == ApiEvents::NewConnection(id)
}

/// `n` contacts `node` with the introduction of peer `unique`, asking for nothing.
pub open spec fn contacts_next(n: JoinNext, unique: i32, node: Seq<u8>) -> bool {
    n matches JoinNext::Contact { node: k, hello, first } && k@ == node && hello.id == unique
        && !hello.request_nodes && !first
}

/// What the endpoint task does for one command.
pub enum ProtoAction {
    /// Join the mesh through this endpoint.
    Join([u8; 32]),
    /// Hand these commands to the connections of these peers.
    Send(Vec<(i32, ProtoCommand)>),
    /// Close the connection to this peer (none when it was not connected).
    Disconnect(Option<i32>),
    /// Shut the router down (which shuts the protocol down).
    Shutdown,
}

/// `c` sends exactly `packet` to peer `to`.
pub open spec fn sends(c: (i32, ProtoCommand), to: i32, packet: Seq<u8>) -> bool {
    &&& c.0 == to
    &&& c.1 matches ProtoCommand::PushPacket(p)
    &&& p@ == packet
}

/// The endpoint ids an `Accepting` lists.
pub open spec fn listed_nodes(a: Accepting) -> Option<Seq<Seq<u8>>> {
    match a.nodes {
        Some(v) => Some(v@.map_values(|k: [u8; 32]| k@)),
        None => None,
    }
}

/// What accepting a joining peer does, from `old_p` to `new_p`, for the introduction `c` of
/// the peer at `node`, answered with `reply` and announced with `event` (see `accept`).
pub open spec fn accepted(
    old_p: MultiplayerProto,
    new_p: MultiplayerProto,
    c: Connecting,
    node: Seq<u8>,
    reply: Accepting,
    event: ApiEvents,
) -> bool {
    &&& reply.id == old_p.unique_spec()
    &&& listed_nodes(reply) == (if c.request_nodes {
        Some(entry_nodes(old_p.peers()))
    } else {
        None::<Seq<Seq<u8>>>
    })
    &&& new_p.peers() == insert_entry(old_p.peers(), c.id, node)
    &&& event == ApiEvents::NewConnection(c.id)
}

/// How a join through `first` starts, for the peer `p` (see `join_start`).
pub open spec fn join_started(p: MultiplayerProto, first: Seq<u8>, join: Join, next: JoinNext) -> bool {
    &&& join.wf()
    &&& join.first_node() == first
    &&& join.first_answer() is None
    &&& next matches JoinNext::Contact { node, hello, first: is_first } && node@ == first && hello.id
        == p.unique_spec() && hello.request_nodes && is_first
}

/// What one step of a join does, from the joining peer `old_p` and the join `old_j` on the
/// answer `reply`, to `new_p`, `new_j` and the step `s` (see `join_step`).
pub open spec fn join_stepped(
    old_p: MultiplayerProto,
    new_p: MultiplayerProto,
    old_j: Join,
    new_j: Join,
    reply: JoinReply,
    s: JoinStep,
) -> bool {
    match reply {
        JoinReply::Failed => {
            &&& s.next is Abort
            &&& s.keep@.len() == 0
            &&& new_p.peers() == old_p.peers()
        },
        JoinReply::Answered(answer) => match old_j.first_answer() {
            None => match answer {
                None => s.next is Done && s.keep@.len() == 0 && new_p.peers() == old_p.peers(),
                Some(a) => match listed_nodes(a) {
                    None => s.next is Done && s.keep@.len() == 0 && new_p.peers() == old_p.peers(),
                    Some(ns) => if ns.len() == 0 {
                        &&& s.next is Done
                        &&& s.keep@.len() == 1
                        &&& keeps(s.keep@[0], a.id, true)
                        &&& new_p.peers() == insert_entry(old_p.peers(), a.id, old_j.first_node())
                    } else {
                        &&& contacts_next(s.next, old_p.unique_spec(), ns[0])
                        &&& s.keep@.len() == 0
                        &&& new_p.peers() == old_p.peers()
                        &&& new_j.first_answer() == Some(a.id)
                        &&& new_j.contacts() == ns
                        &&& new_j.at() == 0
                    },
                },
            },
            Some(f) => {
                let current = old_j.contacts()[old_j.at()];
                let after_current = match answer {
                    Some(a) => insert_entry(old_p.peers(), a.id, current),
                    None => old_p.peers(),
                };
                let kept = if answer is Some { 1int } else { 0int };
                &&& answer matches Some(a) ==> keeps(s.keep@[0], a.id, false)
                &&& if old_j.at() + 1 < old_j.contacts().len() {
                    &&& contacts_next(s.next, old_p.unique_spec(), old_j.contacts()[old_j.at() + 1])
                    &&& s.keep@.len() == kept
                    &&& new_p.peers() == after_current
                    &&& new_j.first_answer() == Some(f)
                    &&& new_j.contacts() == old_j.contacts()
                    &&& new_j.at() == old_j.at() + 1
                } else {
                    &&& s.next is Done
                    &&& s.keep@.len() == kept + 1
                    &&& keeps(s.keep@[kept], f, true)
                    &&& new_p.peers() == insert_entry(after_current, f, old_j.first_node())
                }
            },
        },
    }
}

/// The mesh protocol state of one peer.
pub struct MultiplayerProto {
    unique: i32,
    connections: PeerRegistry,
}

impl MultiplayerProto {
    /// The peer's own multiplayer id.
    pub closed spec fn unique_spec(self) -> i32 {
        self.unique
    }

    /// The connected peers (multiplayer id, endpoint id), in registration order.
    pub closed spec fn peers(self) -> Seq<(i32, Seq<u8>)> {
        self.connections@
    }

    /// Well-formed: one entry per connected peer.
    pub open spec fn wf(self) -> bool {
        entry_ids(self.peers()).no_duplicates()
    }

    /// A peer with a fresh random multiplayer id and no connections.
    pub fn new() -> (p: Self)
        ensures
            p.wf(),
            is_assignable_peer_id(p.unique_spec()),
            p.peers() == Seq::<(i32, Seq<u8>)>::empty(),
    {
        let unique = random_peer_id();
        MultiplayerProto { unique, connections: PeerRegistry::new() }
    }

    /// The peer's own multiplayer id.
    pub fn unique_id(&self) -> (id: i32)
        ensures
            id == self.unique_spec(),
    {
        self.unique
    }

    /// The introduction this peer sends to a peer it connects to.
    pub fn connecting_request(&self, request_nodes: bool) -> (c: Connecting)
        ensures
            c.id == self.unique_spec(),
            c.request_nodes == request_nodes,
    {
        Connecting { id: self.unique, request_nodes }
    }

    /// Starts a join through `first`: contact it, asking for the endpoints of its peers.
    pub fn join_start(&self, first: [u8; 32]) -> (r: (Join, JoinNext))
        ensures
            join_started(*self, first@, r.0, r.1),
    {
        let join = Join { first, first_id: None, contacts: Vec::new(), at: 0 };
        proof {
            assert(join.contacts() =~= Seq::<Seq<u8>>::empty());
        }
        (join, JoinNext::Contact { node: first, hello: self.connecting_request(true), first: true })
    }

    /// One step of a join, on the answer of the endpoint last contacted. The first peer's
    /// answer lists the endpoints to contact next, one after the other, each introduced
    /// without asking for more; every contact that answers is kept under the id it answered
    /// with, and the first peer only after the last of them. When the first peer lists nothing
    /// at all it is not kept; an unreadable answer of the first peer ends the join, one of a
    /// contact skips it; a failed connection ends the join with nothing more kept.
    pub fn join_step(&mut self, join: &mut Join, reply: JoinReply) -> (s: JoinStep)
        requires
            old(self).wf(),
            old(join).wf(),
        ensures
            final(self).wf(),
            final(self).unique_spec() == old(self).unique_spec(),
            final(join).wf(),
            final(join).first_node() == old(join).first_node(),
            join_stepped(*old(self), *final(self), *old(join), *final(join), reply, s),
    {
        let mut keep: Vec<JoinKeep> = Vec::new();
        match reply {
            JoinReply::Failed => JoinStep { keep, next: JoinNext::Abort },
            JoinReply::Answered(answer) => match join.first_id {
                None => match answer {
                    None => JoinStep { keep, next: JoinNext::Done },
                    Some(a) => match a.nodes {
                        None => JoinStep { keep, next: JoinNext::Done },
                        Some(nodes) => {
                            if nodes.len() == 0 {
                                let event = self.register(a.id, join.first);
                                keep.push(JoinKeep { id: a.id, first: true, event });
                                JoinStep { keep, next: JoinNext::Done }
                            } else {
                                let node = nodes[0];
                                join.first_id = Some(a.id);
                                join.contacts = nodes;
                                join.at = 0;
                                JoinStep {
                                    keep,
                                    next: JoinNext::Contact { node, hello: self.connecting_request(false), first: false },
                                }
                            }
                        },
                    },
                },
                Some(f) => {
                    let len = join.contacts.len();
                    proof {
                        assert(join.contacts@.len() == join.contacts().len());
                    }
                    match answer {
                        Some(a) => {
                            let event = self.register(a.id, join.contacts[join.at]);
                            keep.push(JoinKeep { id: a.id, first: false, event });
                        },
                        None => {},
                    }
                    if join.at + 1 < len {
                        join.at = join.at + 1;
                        let node = join.contacts[join.at];
                        JoinStep {
                            keep,
                            next: JoinNext::Contact { node, hello: self.connecting_request(false), first: false },
                        }
                    } else {
                        let event = self.register(f, join.first);
                        keep.push(JoinKeep { id: f, first: true, event });
                        JoinStep { keep, next: JoinNext::Done }
                    }
                },
            },
        }
    }

    /// Registers the connection of peer `remote_id` (reached at `node`), replacing an earlier
    /// one, and returns the event that tells Godot about it.
    pub fn register(&mut self, remote_id: i32, node: [u8; 32]) -> (e: ApiEvents)
        requires
            old(self).wf(),
        ensures
            final(self).wf(),
            final(self).unique_spec() == old(self).unique_spec(),
            final(self).peers() == insert_entry(old(self).peers(), remote_id, node@),
            e == ApiEvents::NewConnection(remote_id),
    {
        let _ = self.connections.insert(remote_id, node);
        ApiEvents::NewConnection(remote_id)
    }

    /// Accepts a joining peer: answers with this peer's id (and, when asked for, the endpoint
    /// ids of every peer connected before it), then registers it.
    pub fn accept(&mut self, connecting: &Connecting, remote_node: [u8; 32]) -> (r: (Accepting, ApiEvents))
        requires
            old(self).wf(),
        ensures
            final(self).wf(),
            final(self).unique_spec() == old(self).unique_spec(),
            accepted(*old(self), *final(self), *connecting, remote_node@, r.0, r.1),
    {
        let nodes = if connecting.request_nodes {
            Some(self.connections.nodes())
        } else {
            None
        };
        let reply = Accepting { id: self.unique, nodes };
        let event = self.register(connecting.id, remote_node);
        (reply, event)
    }

    /// The command that sends `packet` to peer `id`, if it is connected.
    pub fn push_packet(&self, id: i32, packet: Vec<u8>) -> (r: Option<(i32, ProtoCommand)>)
        ensures
            r is Some <==> entry_ids(self.peers()).contains(id),
            r matches Some(c) ==> sends(c, id, packet@),
    {
        if self.connections.contains(id) {
            Some((id, ProtoCommand::PushPacket(packet)))
        } else {
            None
        }
    }

    /// The commands that send `packet` to every connected peer, one each.
    pub fn broadcast_packet(&self, packet: &[u8]) -> (r: Vec<(i32, ProtoCommand)>)
        ensures
            r@.len() == self.peers().len(),
            forall|i: int| 0 <= i < r@.len() ==> sends(#[trigger] r@[i], entry_ids(self.peers())[i], packet@),
    {
        let ids = self.connections.ids();
        let mut out: Vec<(i32, ProtoCommand)> = Vec::new();
        let mut i: usize = 0;
        while i < ids.len()
            invariant
                ids@ == entry_ids(self.peers()),
                i <= ids@.len(),
                out@.len() == i,
                forall|j: int| 0 <= j < i ==> sends(#[trigger] out@[j], ids@[j], packet@),
            decreases ids@.len() - i,
        {
            out.push((ids[i], ProtoCommand::PushPacket(slice_to_vec(packet))));
            i = i + 1;
        }
        out
    }

    /// Forgets peer `unique`; returns it when its connection is to be closed.
    pub fn disconnect_node(&mut self, unique: i32) -> (r: Option<i32>)
        requires
            old(self).wf(),
        ensures
            final(self).wf(),
            final(self).unique_spec() == old(self).unique_spec(),
            r is Some <==> entry_ids(old(self).peers()).contains(unique),
            r matches Some(id) ==> id == unique,
            final(self).peers() == remove_entry(old(self).peers(), unique),
            !entry_ids(final(self).peers()).contains(unique),
    {
        proof {
            entry_ids(self.connections@).index_of_first_ensures(unique);
        }
        match self.connections.remove(unique) {
            Some(_) => Some(unique),
            None => None,
        }
    }

    /// Forgets every peer; returns the peers whose connections are to be closed.
    pub fn shutdown(&mut self) -> (closed: Vec<i32>)
        ensures
            final(self).wf(),
            final(self).unique_spec() == old(self).unique_spec(),
            closed@ == entry_ids(old(self).peers()),
            final(self).peers() == Seq::<(i32, Seq<u8>)>::empty(),
    {
        self.connections.clear()
    }

    /// The endpoint id registered for peer `id`.
    pub fn node_of(&self, id: i32) -> (r: Option<[u8; 32]>)
        ensures
            match entry_node(self.peers(), id) {
                Some(n) => r matches Some(k) && k@ == n,
                None => r is None,
            },
    {
        self.connections.node_of(id)
    }

    /// Carries out one command of the endpoint task's loop.
    pub fn handle_command(&mut self, command: ApiCommands) -> (a: ProtoAction)
        requires
            old(self).wf(),
        ensures
            final(self).wf(),
            final(self).unique_spec() == old(self).unique_spec(),
            match command {
                ApiCommands::JoinNode(node) => a == ProtoAction::Join(node) && final(self).peers() == old(self).peers(),
                ApiCommands::PushPacket { id, packet } => {
                    &&& final(self).peers() == old(self).peers()
                    &&& a matches ProtoAction::Send(cmds)
                    &&& cmds@.len() == (if entry_ids(old(self).peers()).contains(id) { 1int } else { 0int })
                    &&& forall|i: int| 0 <= i < cmds@.len() ==> sends(#[trigger] cmds@[i], id, packet@)
                },
                ApiCommands::BroadcastPacket(packet) => {
                    &&& final(self).peers() == old(self).peers()
                    &&& a matches ProtoAction::Send(cmds)
                    &&& cmds@.len() == old(self).peers().len()
                    &&& forall|i: int| 0 <= i < cmds@.len() ==> sends(#[trigger] cmds@[i], entry_ids(old(self).peers())[i], packet@)
                },
                ApiCommands::DisconnectNode(id) => {
                    &&& final(self).peers() == remove_entry(old(self).peers(), id)
                    &&& a == ProtoAction::Disconnect(if entry_ids(old(self).peers()).contains(id) {
                        Some(id)
                    } else {
                        None::<i32>
                    })
                },
                ApiCommands::Close => a == ProtoAction::Shutdown && final(self).peers() == old(self).peers(),
            },
    {
        match command {
            ApiCommands::JoinNode(node) => ProtoAction::Join(node),
            ApiCommands::PushPacket { id, packet } => {
                let mut cmds: Vec<(i32, ProtoCommand)> = Vec::new();
                match self.push_packet(id, packet) {
                    Some(c) => cmds.push(c),
                    None => {},
                }
                ProtoAction::Send(cmds)
            },
            ApiCommands::BroadcastPacket(packet) => ProtoAction::Send(self.broadcast_packet(packet.as_slice())),
            ApiCommands::DisconnectNode(id) => ProtoAction::Disconnect(self.disconnect_node(id)),
            ApiCommands::Close => ProtoAction::Shutdown,
        }
    }
}

/// The mesh closes over a join: when a peer starts a join through `acceptor`'s endpoint and
/// `acceptor` accepts its introduction, `acceptor` registers the joining peer under the id it
/// introduced itself with, and the joining peer, on that answer, goes on to contact every peer
/// `acceptor` was connected to, first to last, or, when there were none, keeps `acceptor` as
/// its peer under `acceptor`'s id at once.
pub proof fn law_join_reaches_the_whole_mesh(
    joiner: MultiplayerProto,
    first: Seq<u8>,
    join: Join,
    next: JoinNext,
    acceptor: MultiplayerProto,
    acceptor_after: MultiplayerProto,
    joiner_node: Seq<u8>,
    reply: Accepting,
    event: ApiEvents,
    joiner_after: MultiplayerProto,
    join_after: Join,
    step: JoinStep,
)
    requires
        acceptor.wf(),
        join_started(joiner, first, join, next),
        next matches JoinNext::Contact { hello, .. } && accepted(acceptor, acceptor_after, hello, joiner_node, reply, event),
        join_stepped(joiner, joiner_after, join, join_after, JoinReply::Answered(Some(reply)), step),
    ensures
        entry_node(acceptor_after.peers(), joiner.unique_spec()) == Some(joiner_node),
        event == ApiEvents::NewConnection(joiner.unique_spec()),
        acceptor.peers().len() == 0 ==> {
            &&& step.next is Done
            &&& step.keep@.len() == 1
            &&& keeps(step.keep@[0], acceptor.unique_spec(), true)
            &&& joiner_after.peers() == insert_entry(joiner.peers(), acceptor.unique_spec(), first)
        },
        acceptor.peers().len() > 0 ==> {
            &&& step.keep@.len() == 0
            &&& join_after.contacts() == entry_nodes(acceptor.peers())
            &&& contacts_next(step.next, joiner.unique_spec(), entry_nodes(acceptor.peers())[0])
            &&& join_after.first_answer() == Some(acceptor.unique_spec())
        },
{
    let other: i32 = if joiner.unique_spec() == 0 { 1 } else { 0 };
    crate::shared::law_registry_read_after_insert(acceptor.peers(), joiner.unique_spec(), joiner_node, other);
    assert(entry_nodes(acceptor.peers()).len() == acceptor.peers().len());
}

/// Every peer a join contacts after the first is introduced with the joining peer's own
/// multiplayer id, asking for nothing, and it is the listed endpoint the join has come to; a
/// failed connection registers nothing; a contact that answers is registered at the endpoint
/// contacted under the id it answered with, and every other peer keeps its registration,
/// unless it is the first peer, which the last step registers at the first endpoint.
pub proof fn law_join_introduces_the_joiner_itself(
    old_p: MultiplayerProto,
    new_p: MultiplayerProto,
    old_j: Join,
    new_j: Join,
    reply: JoinReply,
    s: JoinStep,
)
    requires
        old_p.wf(),
        old_j.wf(),
        join_stepped(old_p, new_p, old_j, new_j, reply, s),
    ensures
        s.next matches JoinNext::Contact { node, hello, first } ==> {
            &&& hello.id == old_p.unique_spec()
            &&& !hello.request_nodes
            &&& !first
            &&& new_j.first_answer() is Some
            &&& 0 <= new_j.at() < new_j.contacts().len()
            &&& new_j.contacts()[new_j.at()] == node@
        },
        reply is Failed ==> s.keep@.len() == 0 && new_p.peers() == old_p.peers(),
        (old_j.first_answer() is Some && s.next is Contact) ==> {
            &&& new_j.first_answer() == old_j.first_answer()
            &&& new_j.contacts() == old_j.contacts()
            &&& new_j.at() == old_j.at() + 1
        },
        match (old_j.first_answer(), reply) {
            (None, JoinReply::Answered(Some(a))) => s.next is Contact ==> {
                &&& new_j.first_answer() == Some(a.id)
                &&& listed_nodes(a) == Some(new_j.contacts())
                &&& new_j.at() == 0
                &&& new_p.peers() == old_p.peers()
            },
            _ => true,
        },
        match (old_j.first_answer(), reply) {
            (Some(f), JoinReply::Answered(Some(a))) => a.id != f ==> {
                &&& entry_node(new_p.peers(), a.id) == Some(old_j.contacts()[old_j.at()])
                &&& forall|other: i32| other != a.id && other != f ==> #[trigger] entry_node(new_p.peers(), other) == entry_node(old_p.peers(), other)
            },
            _ => true,
        },
{
    if let Some(f) = old_j.first_answer() {
        if let JoinReply::Answered(Some(a)) = reply {
            if a.id != f {
                let current = old_j.contacts()[old_j.at()];
                let mid = insert_entry(old_p.peers(), a.id, current);
                assert forall|other: i32| other != a.id implies #[trigger] entry_node(mid, other) == entry_node(old_p.peers(), other) by {
                    crate::shared::law_registry_read_after_insert(old_p.peers(), a.id, current, other);
                }
                crate::shared::law_registry_read_after_insert(old_p.peers(), a.id, current, f);
                if !(old_j.at() + 1 < old_j.contacts().len()) {
                    assert forall|other: i32| other != f implies #[trigger] entry_node(new_p.peers(), other) == entry_node(mid, other) by {
                        crate::shared::law_registry_read_after_insert(mid, f, old_j.first_node(), other);
                    }
                    crate::shared::law_registry_read_after_insert(mid, f, old_j.first_node(), a.id);
                }
            }
        }
    }
}

/// Accepting a peer answers with this peer's own id (and, when asked, the endpoints of exactly
/// the peers connected before), registers the peer at its endpoint under the id it introduced
/// itself with, and keeps every other peer's registration as it was.
pub proof fn law_accept_keeps_every_other_peer(
    old_p: MultiplayerProto,
    new_p: MultiplayerProto,
    c: Connecting,
    node: Seq<u8>,
    reply: Accepting,
    event: ApiEvents,
)
    requires
        old_p.wf(),
        accepted(old_p, new_p, c, node, reply, event),
    ensures
        reply.id == old_p.unique_spec(),
        c.request_nodes ==> listed_nodes(reply) == Some(entry_nodes(old_p.peers())),
        !c.request_nodes ==> listed_nodes(reply) is None,
        entry_node(new_p.peers(), c.id) == Some(node),
        forall|other: i32| other != c.id ==> #[trigger] entry_node(new_p.peers(), other) == entry_node(old_p.peers(), other),
        event == ApiEvents::NewConnection(c.id),
{
    assert forall|other: i32| other != c.id implies #[trigger] entry_node(new_p.peers(), other) == entry_node(old_p.peers(), other) by {
        crate::shared::law_registry_read_after_insert(old_p.peers(), c.id, node, other);
    }
    let other: i32 = if c.id == 0 { 1 } else { 0 };
    crate::shared::law_registry_read_after_insert(old_p.peers(), c.id, node, other);
}

// ---------------------------------------------------------------------------------------------
// Packet framing on a connection: a big-endian u16 length (the packet length modulo 2^16),
// then the packet.
// ---------------------------------------------------------------------------------------------

/// The two big-endian bytes of `x`.
pub open spec fn u16_be_bytes(x: u16) -> Seq<u8> {
    seq![(x >> 8u16) as u8, x as u8]
}

/// The integer two big-endian bytes spell.
pub open spec fn u16_from_be(b: Seq<u8>) -> u16
    recommends
        b.len() == 2,
{
    (((b[0] as u16) << 8u16) | (b[1] as u16)) as u16
}

/// The bytes a connection writes for `packet`.
pub open spec fn frame_spec(packet: Seq<u8>) -> Seq<u8> {
    u16_be_bytes((packet.len() % 0x10000) as u16) + packet
}

/// What a connection reads from `bytes`: the announced packet and the bytes it took, or
/// `None` while the header or the packet is incomplete.
pub open spec fn read_frame_spec(bytes: Seq<u8>) -> Option<(Seq<u8>, int)> {
    if bytes.len() < 2 {
        None
    } else {
        let n = u16_from_be(bytes.take(2)) as int;
        if bytes.len() < 2 + n {
            None
        } else {
            Some((bytes.subrange(2, 2 + n), 2 + n))
        }
    }
}

/// Frames `packet` for a connection (the length wraps for packets of 64 KiB and more).
pub fn frame_packet(packet: &[u8]) -> (f: Vec<u8>)
    ensures
        f@ == frame_spec(packet@),
{
    let len = (packet.len() % 0x10000) as u16;
    let mut f: Vec<u8> = Vec::new();
    f.push((len >> 8u16) as u8);
    f.push(len as u8);
    let mut i: usize = 0;
    while i < packet.len()
        invariant
            i <= packet@.len(),
            f@ == u16_be_bytes(len) + packet@.take(i as int),
        decreases packet@.len() - i,
    {
        f.push(packet[i]);
        proof {
            assert(packet@.take(i as int + 1) =~= packet@.take(i as int).push(packet@[i as int]));
            assert(u16_be_bytes(len) + packet@.take(i as int + 1) =~= (u16_be_bytes(len) + packet@.take(i as int)).push(packet@[i as int]));
        }
        i = i + 1;
    }
    proof {
        assert(packet@.take(packet@.len() as int) =~= packet@);
    }
    f
}

/// The packet size a frame header announces.
pub fn frame_size(header: [u8; 2]) -> (n: usize)
    ensures
        n == u16_from_be(header@) as usize,
{
    (((header[0] as u16) << 8u16) | (header[1] as u16)) as usize
}

/// Reads one frame from the start of `bytes`.
pub fn read_frame(bytes: &[u8]) -> (r: Option<(Vec<u8>, usize)>)
    ensures
        match read_frame_spec(bytes@) {
            Some((p, n)) => r matches Some(x) && x.0@ == p && x.1 == n,
            None => r is None,
        },
{
    if bytes.len() < 2 {
        return None;
    }
    let n = frame_size([bytes[0], bytes[1]]);
    proof {
        assert(seq![bytes@[0], bytes@[1]] =~= bytes@.take(2));
    }
    if bytes.len() - 2 < n {
        return None;
    }
    let mut p: Vec<u8> = Vec::new();
    let mut i: usize = 0;
    while i < n
        invariant
            n + 2 <= bytes@.len(),
            bytes@.len() <= usize::MAX,
            i <= n,
            p@ == bytes@.subrange(2, 2 + i),
        decreases n - i,
    {
        p.push(bytes[2 + i]);
        proof {
            assert(bytes@.subrange(2, 2 + i + 1) =~= bytes@.subrange(2, 2 + i).push(bytes@[2 + i]));
        }
        i = i + 1;
    }
    Some((p, n + 2))
}

/// A buffer of `n` bytes into which a read put `read` at the start; the rest stays zero.
pub open spec fn zero_filled(read: Seq<u8>, n: nat) -> Seq<u8> {
    Seq::new(n, |i: int| if i < read.len() { read[i] } else { 0u8 })
}

/// The event a connection of peer `unique` hands on after reading a frame header and then,
/// with one read into a zeroed buffer of the announced size, the bytes `read`: the whole
/// buffer, as much of it as the read filled and zeros after that (a read never fills more
/// than the buffer holds, so bytes of `read` beyond the announced size are not handed on).
pub fn received_frame(unique: i32, header: [u8; 2], read: &[u8]) -> (e: ApiEvents)
    ensures
        e matches ApiEvents::RecvPacket((id, p)) && id == unique && p@ == zero_filled(
            read@,
            u16_from_be(header@) as nat,
        ),
{
    let n = frame_size(header);
    let mut p: Vec<u8> = Vec::new();
    let mut i: usize = 0;
    while i < n
        invariant
            n == u16_from_be(header@),
            i <= n,
            p@ =~= zero_filled(read@, n as nat).take(i as int),
        decreases n - i,
    {
        if i < read.len() {
            p.push(read[i]);
        } else {
            p.push(0u8);
        }
        i = i + 1;
    }
    ApiEvents::RecvPacket((unique, p))
}

/// A read that fills the whole buffer hands on exactly the packet framed with that header:
/// what `received_frame` hands on is then what `read_frame` reads from the header and bytes.
pub proof fn law_full_read_hands_on_the_frame(header: Seq<u8>, read: Seq<u8>)
    requires
        header.len() == 2,
        read.len() == u16_from_be(header),
    ensures
        read_frame_spec(header + read) == Some((zero_filled(read, read.len()), read.len() + 2int)),
{
    let b = header + read;
    assert(b.take(2) =~= header);
    assert(b.subrange(2, 2 + read.len() as int) =~= zero_filled(read, read.len()));
}

/// What one end of a connection writes for a packet of less than 64 KiB, the other end reads
/// back as exactly that packet, taking exactly the frame's bytes; whatever follows the frame
/// is left for the next one.
pub proof fn lemma_frame_roundtrip(packet: Seq<u8>, rest: Seq<u8>)
    requires
        packet.len() < 0x10000,
    ensures
        read_frame_spec(frame_spec(packet) + rest) == Some((packet, packet.len() + 2int)),
{
    let len = (packet.len() % 0x10000) as u16;
    assert(len == packet.len());
    let b = frame_spec(packet) + rest;
    assert(b.take(2) =~= u16_be_bytes(len));
    assert(((((len >> 8u16) as u8) as u16) << 8u16 | ((len as u8) as u16)) as u16 == len) by (bit_vector);
    assert(u16_from_be(b.take(2)) == len);
    assert(b.subrange(2, 2 + packet.len() as int) =~= packet);
}

/// What a mesh connection hands on after a short read starts with every byte read, in order,
/// and is zero after them, up to the size the header announced.
pub proof fn law_received_frame_keeps_every_byte_read(read: Seq<u8>, n: nat)
    requires
        read.len() <= n,
    ensures
        zero_filled(read, n).len() == n,
        zero_filled(read, n).take(read.len() as int) == read,
        forall|i: int| read.len() <= i < n ==> #[trigger] zero_filled(read, n)[i] == 0u8,
{
    assert(zero_filled(read, n).take(read.len() as int) =~= read);
}

/// What one end of a mesh connection sends for a packet of less than 64 KiB, the other end,
/// when its one read after the header returns the rest of the frame, hands on as exactly that
/// packet (what `received_frame` hands on for the header and the read).
pub proof fn law_connection_delivers_pushed_packet(packet: Seq<u8>)
    requires
        packet.len() < 0x10000,
    ensures
        u16_from_be(frame_spec(packet).take(2)) == packet.len(),
        zero_filled(frame_spec(packet).skip(2), u16_from_be(frame_spec(packet).take(2)) as nat) == packet,
{
    lemma_frame_roundtrip(packet, Seq::empty());
    let f = frame_spec(packet);
    assert(f + Seq::<u8>::empty() =~= f);
    assert(f.skip(2) =~= packet);
    assert(zero_filled(f.skip(2), packet.len()) =~= packet);
}

/// A packet of 64 KiB or more is announced with its length modulo 2^16, so the other end
/// reads a shorter packet: the framing is faithful exactly below that size.
pub proof fn lemma_frame_wraps(packet: Seq<u8>)
    requires
        packet.len() >= 0x10000,
    ensures
        read_frame_spec(frame_spec(packet)) matches Some((p, n)) && p.len() == packet.len() % 0x10000 && p != packet,
{
    let len = (packet.len() % 0x10000) as u16;
    let b = frame_spec(packet);
    assert(b.take(2) =~= u16_be_bytes(len));
    assert(((((len >> 8u16) as u8) as u16) << 8u16 | ((len as u8) as u16)) as u16 == len) by (bit_vector);
    assert(u16_from_be(b.take(2)) == len);
    assert(b.subrange(2, 2 + len as int).len() == len as int);
}

} // verus!
