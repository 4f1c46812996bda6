//! The decisions of the iroh runtime task: its multiplayer id, what each command asks of it,
//! and the tickets it creates or extends when joining gossip topics.
use crate::network::tickets::{node_seqs, GossipTicket};
use crate::shared::is_assignable_peer_id;
use vstd::prelude::*;

verus! {

/// What Godot's side asks of the runtime task.
#[derive(Debug, Clone)]
pub enum Command {
    /// Shut the router down.
    Close,
    /// Join the topic of a base32 ticket, or create a new topic (`None`).
    JoinTopic(Option<String>),
}

/// What the runtime task reports.
#[derive(Debug, Clone)]
pub enum Event {
    /// The router is up; the peer's multiplayer id.
    Connected(i32),
    /// Subscribing to the topic of this ticket.
    JoiningTopic(String),
    /// Subscribed; the ticket others can join with, and the handle under which the runtime
    /// keeps the subscription's sender and message channel.
    JoinedTopic { ticket: String, topic: u64 },
}

/// What the runtime task does for one command.
pub enum RuntimeStep {
    /// Shut the router down.
    Shutdown,
    /// Decode this ticket and join its topic.
    JoinExisting(String),
    /// Create a fresh topic.
    CreateTopic,
}

/// Calls `rand::rng().random_range(lo..hi)`, documented to give a value from the range and
/// to panic on an empty one. Claimed: `lo <= r < hi`; which value comes back is left open.
#[verifier::external_body]
fn rand_i32_in(lo: i32, hi: i32) -> (r: i32)
    requires
        lo < hi,
    ensures
        lo <= r < hi,
{
    rand::Rng::random_range(&mut rand::rng(), lo..hi)
}

/// Calls `rand::random::<[u8; 32]>()`: 32 random bytes. Nothing is claimed of them.
#[verifier::external_body]
fn rand_bytes_32() -> (r: [u8; 32]) {
    rand::random::<[u8; 32]>()
}

/// The multiplayer id the runtime announces once its router is up: random, from `2..i32::MAX`.
pub fn runtime_unique_id() -> (id: i32)
    ensures
        is_assignable_peer_id(id),
{
    rand_i32_in(2, i32::MAX)
}

/// `step` is what the runtime does for `command`.
pub open spec fn planned(command: Command, step: RuntimeStep) -> bool {
    match command {
        Command::Close => step is Shutdown,
        Command::JoinTopic(Some(t)) => step matches RuntimeStep::JoinExisting(s) && s@ == t@,
        Command::JoinTopic(None) => step is CreateTopic,
    }
}

/// What the runtime does for `command`.
pub fn plan_command(command: Command) -> (step: RuntimeStep)
    ensures
        planned(command, step),
{
    match command {
        Command::Close => RuntimeStep::Shutdown,
        Command::JoinTopic(Some(ticket)) => RuntimeStep::JoinExisting(ticket),
        Command::JoinTopic(None) => RuntimeStep::CreateTopic,
    }
}

/// What the runtime task's loop learns: whether announcing the connected router reached Godot's
/// side, a command, that the command channel closed, or that it lagged behind.
pub enum RuntimeInput {
    Announced { delivered: bool },
    Command(Command),
    Closed,
    Lagged,
}

/// What the runtime task's loop does next.
pub enum LoopStep {
    /// Carry out this step, then wait for the next command.
    Run(RuntimeStep),
    /// Wait for the next command.
    Wait,
    /// End the task.
    Stop,
}

/// The runtime task's loop: it ends when Godot's side cannot be told that the router is up or
/// when the command channel closes, skips what it lagged behind on, and carries out every
/// command it receives.
pub fn runtime_step(input: RuntimeInput) -> (next: LoopStep)
    ensures
        match input {
            RuntimeInput::Announced { delivered } => if delivered { next is Wait } else { next is Stop },
            RuntimeInput::Command(c) => next matches LoopStep::Run(step) && planned(c, step),
            RuntimeInput::Closed => next is Stop,
            RuntimeInput::Lagged => next is Wait,
        },
{
    match input {
        RuntimeInput::Announced { delivered } => if delivered { LoopStep::Wait } else { LoopStep::Stop },
        RuntimeInput::Command(c) => LoopStep::Run(plan_command(c)),
        RuntimeInput::Closed => LoopStep::Stop,
        RuntimeInput::Lagged => LoopStep::Wait,
    }
}

/// What a joined topic's receiver yields: a message, another event, or an error.
pub enum TopicEvent {
    Received,
    Other,
    Failed,
}

/// What a joined topic's task does with what its receiver yields.
pub enum TopicStep {
    /// Hand the message on to the topic's channel.
    Forward,
    /// Note it and go on.
    Skip,
    /// End the task.
    Stop,
}

/// A joined topic's task forwards every message, goes on past other events and ends on an
/// error.
pub fn topic_step(event: TopicEvent) -> (step: TopicStep)
    ensures
        match event {
            TopicEvent::Received => step is Forward,
            TopicEvent::Other => step is Skip,
            TopicEvent::Failed => step is Stop,
        },
{
    match event {
        TopicEvent::Received => TopicStep::Forward,
        TopicEvent::Other => TopicStep::Skip,
        TopicEvent::Failed => TopicStep::Stop,
    }
}

/// Creating a topic: a random topic id, a ticket that lists only this endpoint, and nobody to
/// bootstrap from.
pub fn create_topic(me: [u8; 32]) -> (r: (GossipTicket, Vec<[u8; 32]>))
    ensures
        r.0.nodes_spec() == seq![me@],
        r.1@.len() == 0,
{
    let topic = rand_bytes_32();
    let mut nodes: Vec<[u8; 32]> = Vec::new();
    nodes.push(me);
    proof {
        assert(node_seqs(nodes@) =~= seq![me@]);
    }
    (GossipTicket::new(topic, nodes), Vec::new())
}

/// Joining the topic of `ticket`: subscribe to its topic, bootstrapping from the endpoints it
/// lists, and hand on the ticket extended with this endpoint.
pub fn join_topic(ticket: &GossipTicket, me: [u8; 32]) -> (r: (GossipTicket, Vec<[u8; 32]>))
    ensures
        r.0.topic_spec() == ticket.topic_spec(),
        r.0.nodes_spec() == ticket.nodes_spec().push(me@),
        node_seqs(r.1@) == ticket.nodes_spec(),
{
    (ticket.joined_by(me), ticket.get_nodes())
}

} // verus!
