//! The local side of a bootstrapped peer: its endpoint and its multiplayer identity.
use crate::protocol::behaviour::GodotMultiplayerProto;
use vstd::prelude::*;

verus! {

/// A bootstrapped peer: the endpoint it bound and the identity it presents.
#[derive(Clone, Copy, Debug)]
pub struct Peer {
    endpoint_id: [u8; 32],
    multiplayer_proto: GodotMultiplayerProto,
}

impl Peer {
    /// The id of the bound endpoint.
    pub closed spec fn endpoint_spec(self) -> Seq<u8> {
        self.endpoint_id@
    }

    /// The multiplayer identity.
    pub closed spec fn proto_spec(self) -> GodotMultiplayerProto {
        self.multiplayer_proto
    }

    /// The peer whose endpoint `endpoint_id` was bound and that presents `multiplayer_proto`.
    pub fn init(endpoint_id: [u8; 32], multiplayer_proto: GodotMultiplayerProto) -> (p: Self)
        ensures
            p.endpoint_spec() == endpoint_id@,
            p.proto_spec() == multiplayer_proto,
    {
        Peer { endpoint_id, multiplayer_proto }
    }

    /// The id of the bound endpoint.
    pub fn endpoint(&self) -> (id: &[u8; 32])
        ensures
            id@ == self.endpoint_spec(),
    {
        &self.endpoint_id
    }

    /// The multiplayer id the peer presents.
    pub fn get_unique_id(&self) -> (id: i32)
        ensures
            id == self.proto_spec().unique_spec(),
    {
        self.multiplayer_proto.get_unique_id()
    }

    /// The multiplayer identity.
    pub fn multiplayer(&self) -> (m: &GodotMultiplayerProto)
        ensures
            *m == self.proto_spec(),
    {
        &self.multiplayer_proto
    }
}

} // verus!
