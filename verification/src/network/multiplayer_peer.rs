//! Godot's side of the peer on the iroh runtime task.
use crate::network::runtime::{Command, Event};
use crate::shared::{ConnectionStatus, PeerSignal};
use vstd::prelude::*;

verus! {

/// Godot's side of a peer whose network work runs in the iroh runtime task.
pub struct IrohMultiplayerPeer {
    status: ConnectionStatus,
    multiplayer_id: i32,
}

impl IrohMultiplayerPeer {
    /// The connection status reported to Godot.
    pub closed spec fn status_spec(self) -> ConnectionStatus {
        self.status
    }

    /// The multiplayer id (0 until the runtime is connected).
    pub closed spec fn id_spec(self) -> i32 {
        self.multiplayer_id
    }

    /// The peer right after the runtime task was started.
    pub fn initialize() -> (p: Self)
        ensures
            p.status_spec() == ConnectionStatus::Connecting,
            p.id_spec() == 0,
    {
        IrohMultiplayerPeer { status: ConnectionStatus::Connecting, multiplayer_id: 0 }
    }

    /// An iroh peer is never a standalone server.
    pub fn is_server(&self) -> (b: bool)
        ensures
            !b,
    {
        false
    }

    /// Handles one event of the runtime and returns the signal Godot emits for it; a joined
    /// topic is signalled with the handle of its subscription, from which Godot's topic object
    /// is made.
    pub fn poll(&mut self, event: Event) -> (sig: Option<PeerSignal>)
        ensures
            match event {
                Event::Connected(id) => {
                    &&& sig == Some(PeerSignal::IrohConnected)
                    &&& final(self).status_spec() == ConnectionStatus::Connected
                    &&& final(self).id_spec() == id
                },
                Event::JoiningTopic(_) => sig is None && *final(self) == *old(self),
                Event::JoinedTopic { topic, .. } => sig == Some(PeerSignal::JoinedTopic(topic)) && *final(self) == *old(self),
            },
    {
        match event {
            Event::Connected(unique_id) => {
                self.status = ConnectionStatus::Connected;
                self.multiplayer_id = unique_id;
                Some(PeerSignal::IrohConnected)
            },
            Event::JoiningTopic(_) => None,
            Event::JoinedTopic { topic, .. } => Some(PeerSignal::JoinedTopic(topic)),
        }
    }

    /// Closing the peer shuts the runtime's router down.
    pub fn close(&self) -> (c: Command)
        ensures
            c is Close,
    {
        Command::Close
    }

    /// The multiplayer id.
    pub fn get_unique_id(&self) -> (id: i32)
        ensures
            id == self.id_spec(),
    {
        self.multiplayer_id
    }

    /// The connection status reported to Godot.
    pub fn get_connection_status(&self) -> (s: ConnectionStatus)
        ensures
            s == self.status_spec(),
    {
        self.status
    }

    /// The command for a topic typed by the player: an empty text creates a new topic, any
    /// other text is a ticket to join.
    pub fn join_topic(&self, topic: String) -> (c: Command)
        ensures
            topic@.len() == 0 ==> c matches Command::JoinTopic(None),
            topic@.len() != 0 ==> (c matches Command::JoinTopic(Some(t)) && t@ == topic@),
    {
        if topic.as_str().is_empty() {
            Command::JoinTopic(None)
        } else {
            Command::JoinTopic(Some(topic))
        }
    }
}

} // verus!
