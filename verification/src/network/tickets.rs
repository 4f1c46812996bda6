//! Gossip tickets: the topic to join and the endpoints to bootstrap from, shared between
//! players as base32 text.
use vstd::prelude::*;
use vstd::string::StringSliceAdditionalSpecFns;

verus! {

/// A gossip topic and the endpoints that are in it.
pub struct GossipTicket {
    topic: [u8; 32],
    nodes: Vec<[u8; 32]>,
}

/// The endpoint ids of a list, as byte sequences.
pub open spec fn node_seqs(nodes: Seq<[u8; 32]>) -> Seq<Seq<u8>> {
    nodes.map_values(|k: [u8; 32]| k@)
}

impl GossipTicket {
    /// The topic id.
    pub closed spec fn topic_spec(self) -> Seq<u8> {
        self.topic@
    }

    /// The endpoints in the topic, in the order they joined.
    pub closed spec fn nodes_spec(self) -> Seq<Seq<u8>> {
        node_seqs(self.nodes@)
    }

    /// A ticket for `topic` listing `nodes`.
    pub fn new(topic: [u8; 32], nodes: Vec<[u8; 32]>) -> (t: Self)
        ensures
            t.topic_spec() == topic@,
            t.nodes_spec() == node_seqs(nodes@),
    {
        GossipTicket { topic, nodes }
    }

    /// The topic id.
    pub fn get_topic(&self) -> (t: [u8; 32])
        ensures
            t@ == self.topic_spec(),
    {
        self.topic
    }

    /// A copy of the endpoints in the topic.
    pub fn get_nodes(&self) -> (v: Vec<[u8; 32]>)
        ensures
            node_seqs(v@) == self.nodes_spec(),
    {
        let mut v: Vec<[u8; 32]> = Vec::new();
        let mut i: usize = 0;
        while i < self.nodes.len()
            invariant
                i <= self.nodes@.len(),
                v@ == self.nodes@.take(i as int),
            decreases self.nodes@.len() - i,
        {
            v.push(self.nodes[i]);
            proof {
                assert(self.nodes@.take(i as int + 1) =~= self.nodes@.take(i as int).push(self.nodes@[i as int]));
            }
            i = i + 1;
        }
        proof {
            assert(self.nodes@.take(self.nodes@.len() as int) =~= self.nodes@);
        }
        v
    }

    /// The ticket a player hands on after joining with this one: the same topic, with the
    /// player's endpoint added after the endpoints already in it.
    pub fn joined_by(&self, me: [u8; 32]) -> (t: Self)
        ensures
            t.topic_spec() == self.topic_spec(),
            t.nodes_spec() == self.nodes_spec().push(me@),
    {
        let mut nodes = self.get_nodes();
        let ghost before = nodes@;
        nodes.push(me);
        proof {
            assert(node_seqs(nodes@) =~= node_seqs(before).push(me@));
        }
        GossipTicket { topic: self.topic, nodes }
    }
}

/// The text `data_encoding::BASE32_NOPAD_NOCASE.encode` writes for some bytes.
pub uninterp spec fn base32_text(bytes: Seq<u8>) -> Seq<char>;

/// The bytes `data_encoding::BASE32_NOPAD_NOCASE.decode` reads from the bytes of a text,
/// `None` when it refuses the text.
pub uninterp spec fn base32_bytes(text: Seq<char>) -> Option<Seq<u8>>;

/// Calls `data_encoding::BASE32_NOPAD_NOCASE.encode`, which asserts that the input is at most
/// `usize::MAX / 512` bytes long. Claimed: the result is the crate's encoding of the bytes, and
/// decoding it gives the bytes back (the crate documents its encodings as correct: "encoding
/// followed by decoding gives the initial data").
#[verifier::external_body]
fn base32_encode(bytes: &[u8]) -> (s: String)
    requires
        bytes@.len() <= usize::MAX / 512,
    ensures
        s@ == base32_text(bytes@),
        base32_bytes(s@) == Some(bytes@),
{
    data_encoding::BASE32_NOPAD_NOCASE.encode(bytes)
}

/// Calls `data_encoding::BASE32_NOPAD_NOCASE.decode` on the bytes of the text; the crate
/// asserts that they are at most `usize::MAX / 8`. Claimed: the result is what the crate
/// decodes, `None` exactly when it reports an error.
#[verifier::external_body]
fn base32_decode(text: &str) -> (r: Option<Vec<u8>>)
    requires
        text.spec_bytes().len() <= usize::MAX / 8,
    ensures
        match base32_bytes(text@) {
            Some(b) => r matches Some(v) && v@ == b,
            None => r is None,
        },
{
    match data_encoding::BASE32_NOPAD_NOCASE.decode(text.as_bytes()) {
        Ok(bytes) => Some(bytes),
        Err(_) => None,
    }
}

/// The shareable text of a serialized ticket.
pub fn ticket_text(serialized: &[u8]) -> (s: String)
    requires
        serialized@.len() <= usize::MAX / 512,
    ensures
        s@ == base32_text(serialized@),
        base32_bytes(s@) == Some(serialized@),
{
    base32_encode(serialized)
}

/// The serialized ticket a shared text holds; `None` when the text is no base32.
pub fn ticket_bytes(text: &str) -> (r: Option<Vec<u8>>)
    requires
        text.spec_bytes().len() <= usize::MAX / 8,
    ensures
        match base32_bytes(text@) {
            Some(b) => r matches Some(v) && v@ == b,
            None => r is None,
        },
{
    base32_decode(text)
}

} // verus!
