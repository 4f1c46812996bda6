//! The handshake of the direct protocol.
use crate::shared::{fastrand_i32, i32_be_bytes, i32_from_be, lemma_peer_id_roundtrip, peer_id_to_bytes};
use vstd::prelude::*;

verus! {

/// The multiplayer identity a peer presents on every connection it opens or accepts.
#[derive(Clone, Copy, Debug)]
pub struct GodotMultiplayerProto {
    unique_id: i32,
}

impl GodotMultiplayerProto {
    /// The peer's multiplayer id.
    pub closed spec fn unique_spec(self) -> i32 {
        self.unique_id
    }

    /// A peer with a random multiplayer id from `1..i32::MAX`.
    pub fn new() -> (p: Self)
        ensures
            1 <= p.unique_spec() < i32::MAX,
    {
        GodotMultiplayerProto { unique_id: fastrand_i32(1, i32::MAX) }
    }

    /// The peer's multiplayer id.
    pub fn get_unique_id(&self) -> (id: i32)
        ensures
            id == self.unique_spec(),
    {
        self.unique_id
    }

    /// The four bytes this peer sends in the handshake: its id, big-endian. The connecting
    /// side sends them first and then reads the other's; the accepting side reads first.
    pub fn hello(&self) -> (b: [u8; 4])
        ensures
            b@ == i32_be_bytes(self.unique_spec()),
    {
        peer_id_to_bytes(self.unique_id)
    }
}

/// After a handshake each side knows the other's multiplayer id: what `a` sends, `b` decodes
/// as `a`'s id, and the other way round.
pub proof fn law_handshake_exchanges_ids(a: GodotMultiplayerProto, b: GodotMultiplayerProto)
    ensures
        i32_from_be(i32_be_bytes(a.unique_spec())) == a.unique_spec(),
        i32_from_be(i32_be_bytes(b.unique_spec())) == b.unique_spec(),
{
    lemma_peer_id_roundtrip(a.unique_spec());
    lemma_peer_id_roundtrip(b.unique_spec());
}

} // verus!
