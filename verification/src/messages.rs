//! The wire messages, as flatbuffers tables: the data packet `{ sender: int; packet: [ubyte]
//! (required); }`, the join request `Connecting { id: int; request_nodes: bool; }` and the join
//! answer `Accepting { id: int; nodes: [NodeIdent]; }` with `struct NodeIdent { bytes:
//! [ubyte:32]; }`.
//!
//! Reading follows the flatbuffers layout: a little-endian `u32` offset to the root table; the
//! table starts with an `i32` that the vtable's position is the table's position minus; the
//! vtable holds its own length, the table's length and one `u16` offset per field (0 or
//! missing: the field is absent and takes its default); a vector field holds a `u32` offset from
//! itself to the vector, which is a `u32` count followed by the elements. Every read is checked
//! against the end of the bytes; alignment is not required of what is read.
//!
//! Writing lays every message out the same way: the root offset, a vtable of two fields, the
//! table (its `i32`, then two 4-byte fields), then the vector, if any.
use crate::proto::{listed_nodes, Accepting, Connecting};
use crate::protocol::connections::MultiplayerDataPacket;
use vstd::prelude::*;
use vstd::slice::{slice_subrange, slice_to_vec};

verus! {

// ---------------------------------------------------------------------------------------------
// Little-endian integers.
// ---------------------------------------------------------------------------------------------

/// The two little-endian bytes of `x`.
pub open spec fn le16(x: u16) -> Seq<u8> {
    seq![x as u8, (x >> 8u16) as u8]
}

/// The four little-endian bytes of `x`.
pub open spec fn le32(x: u32) -> Seq<u8> {
    seq![x as u8, (x >> 8u32) as u8, (x >> 16u32) as u8, (x >> 24u32) as u8]
}

/// The `u16` stored little-endian at `i`.
pub open spec fn u16_at(b: Seq<u8>, i: int) -> u16 {
    ((b[i] as u16) | ((b[i + 1] as u16) << 8u16)) as u16
}

/// The `u32` stored little-endian at `i`.
pub open spec fn u32_at(b: Seq<u8>, i: int) -> u32 {
    ((b[i] as u32) | ((b[i + 1] as u32) << 8u32) | ((b[i + 2] as u32) << 16u32) | ((b[i + 3] as u32)
        << 24u32)) as u32
}

/// The `i32` stored little-endian at `i`.
pub open spec fn i32_at(b: Seq<u8>, i: int) -> i32 {
    u32_at(b, i) as i32
}

/// `n` bytes starting at `i` lie within `b`.
pub open spec fn within(b: Seq<u8>, i: int, n: int) -> bool {
    0 <= i && 0 <= n && i + n <= b.len()
}

/// What is written little-endian is read back.
proof fn lemma_le16(x: u16, b: Seq<u8>, i: int)
    requires
        within(b, i, 2),
        b.subrange(i, i + 2) == le16(x),
    ensures
        u16_at(b, i) == x,
{
    assert(b[i] == b.subrange(i, i + 2)[0]);
    assert(b[i + 1] == b.subrange(i, i + 2)[1]);
    assert((((x as u8) as u16) | ((((x >> 8u16) as u8) as u16) << 8u16)) as u16 == x) by (bit_vector);
}

/// What is written little-endian is read back.
proof fn lemma_le32(x: u32, b: Seq<u8>, i: int)
    requires
        within(b, i, 4),
        b.subrange(i, i + 4) == le32(x),
    ensures
        u32_at(b, i) == x,
{
    let w = b.subrange(i, i + 4);
    assert(b[i] == w[0] && b[i + 1] == w[1] && b[i + 2] == w[2] && b[i + 3] == w[3]);
    assert((((x as u8) as u32) | ((((x >> 8u32) as u8) as u32) << 8u32) | ((((x >> 16u32) as u8)
        as u32) << 16u32) | ((((x >> 24u32) as u8) as u32) << 24u32)) as u32 == x) by (bit_vector);
}

/// An `i32` goes through its `u32` bits unchanged.
proof fn lemma_i32_bits(x: i32)
    ensures
        (x as u32) as i32 == x,
{
    assert((x as u32) as i32 == x) by (bit_vector);
}

fn read_u16(b: &[u8], i: usize) -> (r: u16)
    requires
        within(b@, i as int, 2),
    ensures
        r == u16_at(b@, i as int),
{
    (b[i] as u16) | ((b[i + 1] as u16) << 8u16)
}

fn read_u32(b: &[u8], i: usize) -> (r: u32)
    requires
        within(b@, i as int, 4),
    ensures
        r == u32_at(b@, i as int),
{
    (b[i] as u32) | ((b[i + 1] as u32) << 8u32) | ((b[i + 2] as u32) << 16u32) | ((b[i + 3] as u32)
        << 24u32)
}

fn push_u16(v: &mut Vec<u8>, x: u16)
    ensures
        final(v)@ == old(v)@ + le16(x),
{
    v.push(x as u8);
    v.push((x >> 8u16) as u8);
    assert(final(v)@ =~= old(v)@ + le16(x));
}

fn push_u32(v: &mut Vec<u8>, x: u32)
    ensures
        final(v)@ == old(v)@ + le32(x),
{
    v.push(x as u8);
    v.push((x >> 8u32) as u8);
    v.push((x >> 16u32) as u8);
    v.push((x >> 24u32) as u8);
    assert(final(v)@ =~= old(v)@ + le32(x));
}

// ---------------------------------------------------------------------------------------------
// Reading a table.
// ---------------------------------------------------------------------------------------------

/// The root table of a buffer and its vtable, by position; `None` when an offset points out of
/// the bytes or the vtable is shorter than its own header.
pub open spec fn fb_root(b: Seq<u8>) -> Option<(int, int)> {
    if !within(b, 0, 4) {
        None
    } else {
        let t = u32_at(b, 0) as int;
        if !within(b, t, 4) {
            None
        } else {
            let v = t - i32_at(b, t) as int;
            if !within(b, v, 4) {
                None
            } else {
                let vl = u16_at(b, v) as int;
                if vl < 4 || !within(b, v, vl) {
                    None
                } else {
                    Some((t, v))
                }
            }
        }
    }
}

/// The offset of field `f` within the table, from the vtable at `v`; 0 when the vtable does not
/// reach the field.
pub open spec fn fb_slot(b: Seq<u8>, v: int, f: int) -> int {
    if 4 + 2 * f + 2 <= u16_at(b, v) as int {
        u16_at(b, v + 4 + 2 * f) as int
    } else {
        0
    }
}

/// The `i32` field `f` of the table at `t` (vtable at `v`); 0 when absent.
pub open spec fn fb_i32(b: Seq<u8>, t: int, v: int, f: int) -> Option<i32> {
    let o = fb_slot(b, v, f);
    if o == 0 {
        Some(0i32)
    } else if within(b, t + o, 4) {
        Some(i32_at(b, t + o))
    } else {
        None
    }
}

/// The `bool` field `f` of the table at `t` (vtable at `v`); false when absent.
pub open spec fn fb_bool(b: Seq<u8>, t: int, v: int, f: int) -> Option<bool> {
    let o = fb_slot(b, v, f);
    if o == 0 {
        Some(false)
    } else if within(b, t + o, 1) {
        Some(b[t + o] != 0)
    } else {
        None
    }
}

/// The vector field `f` of the table at `t` (vtable at `v`) with elements of `size` bytes:
/// `Some(None)` when absent, `Some(Some((start, count)))` for a vector whose elements start at
/// `start`, `None` when it does not lie within the bytes.
pub open spec fn fb_vector(b: Seq<u8>, t: int, v: int, f: int, size: int) -> Option<Option<(int, int)>> {
    let o = fb_slot(b, v, f);
    if o == 0 {
        Some(None)
    } else if !within(b, t + o, 4) {
        None
    } else {
        let q = t + o + u32_at(b, t + o) as int;
        if !within(b, q, 4) {
            None
        } else {
            let n = u32_at(b, q) as int;
            if within(b, q + 4, n * size) {
                Some(Some((q + 4, n)))
            } else {
                None
            }
        }
    }
}

/// Finds the root table and its vtable.
fn root_of(b: &[u8]) -> (r: Option<(u64, u64)>)
    ensures
        match fb_root(b@) {
            Some((t, v)) => r == Some((t as u64, v as u64)),
            None => r is None,
        },
{
    let len = b.len() as u64;
    if len < 4 {
        return None;
    }
    let t = read_u32(b, 0) as u64;
    if t + 4 > len {
        return None;
    }
    let s = read_u32(b, t as usize) as i32;
    let v = t as i64 - s as i64;
    if v < 0 {
        return None;
    }
    let v = v as u64;
    if v + 4 > len {
        return None;
    }
    let vl = read_u16(b, v as usize) as u64;
    if vl < 4 || v + vl > len {
        return None;
    }
    Some((t, v))
}

/// The offset of field `f` within the table.
fn slot_of(b: &[u8], v: u64, f: u64) -> (o: u64)
    requires
        f <= 1,
        within(b@, v as int, 4),
        within(b@, v as int, u16_at(b@, v as int) as int),
    ensures
        o == fb_slot(b@, v as int, f as int),
        o < 0x10000,
{
    let len = b.len() as u64;
    let vl = read_u16(b, v as usize) as u64;
    if 4 + 2 * f + 2 <= vl {
        read_u16(b, (v + 4 + 2 * f) as usize) as u64
    } else {
        0
    }
}

/// Reads the `i32` field `f`.
fn read_i32_field(b: &[u8], t: u64, v: u64, f: u64) -> (r: Option<i32>)
    requires
        f <= 1,
        fb_root(b@) == Some((t as int, v as int)),
    ensures
        r == fb_i32(b@, t as int, v as int, f as int),
{
    let o = slot_of(b, v, f);
    if o == 0 {
        Some(0i32)
    } else if t + o + 4 <= b.len() as u64 {
        Some(read_u32(b, (t + o) as usize) as i32)
    } else {
        None
    }
}

/// Reads the `bool` field `f`.
fn read_bool_field(b: &[u8], t: u64, v: u64, f: u64) -> (r: Option<bool>)
    requires
        f <= 1,
        fb_root(b@) == Some((t as int, v as int)),
    ensures
        r == fb_bool(b@, t as int, v as int, f as int),
{
    let o = slot_of(b, v, f);
    if o == 0 {
        Some(false)
    } else if t + o + 1 <= b.len() as u64 {
        Some(b[(t + o) as usize] != 0)
    } else {
        None
    }
}

/// Reads the vector field `f` with elements of `size` bytes.
fn read_vector_field(b: &[u8], t: u64, v: u64, f: u64, size: u64) -> (r: Option<Option<(usize, usize)>>)
    requires
        f <= 1,
        1 <= size <= 32,
        fb_root(b@) == Some((t as int, v as int)),
    ensures
        r is None <==> fb_vector(b@, t as int, v as int, f as int, size as int) is None,
        r == Some(None::<(usize, usize)>) <==> fb_vector(b@, t as int, v as int, f as int, size as int)
            == Some(None::<(int, int)>),
        r matches Some(Some((s, n))) ==> fb_vector(b@, t as int, v as int, f as int, size as int) == Some(
            Some((s as int, n as int)),
        ),
{
    let len = b.len() as u64;
    let o = slot_of(b, v, f);
    if o == 0 {
        return Some(None);
    }
    if t + o + 4 > len {
        return None;
    }
    let q = t + o + read_u32(b, (t + o) as usize) as u64;
    if q + 4 > len {
        return None;
    }
    let n = read_u32(b, q as usize) as u64;
    assert(n * size <= 0xffff_ffff * 32) by (nonlinear_arith)
        requires
            n <= 0xffff_ffff,
            size <= 32,
    ;
    if q + 4 + n * size > len {
        return None;
    }
    assert(n <= n * size) by (nonlinear_arith)
        requires
            1 <= size,
    ;
    Some(Some(((q + 4) as usize, n as usize)))
}

// ---------------------------------------------------------------------------------------------
// The layout every message is written in.
// ---------------------------------------------------------------------------------------------

/// The root offset (12), the vtable at 4 (8 bytes long, a table of 12 bytes, the two fields at
/// offsets `first` and `second`) and the table's `i32` (8: the vtable is 8 bytes before it).
pub open spec fn table_head(first: u16, second: u16) -> Seq<u8> {
    le32(12) + le16(8) + le16(12) + le16(first) + le16(second) + le32(8)
}

fn push_table_head(v: &mut Vec<u8>, first: u16, second: u16)
    requires
        old(v)@.len() == 0,
    ensures
        final(v)@ == table_head(first, second),
{
    push_u32(v, 12);
    push_u16(v, 8);
    push_u16(v, 12);
    push_u16(v, first);
    push_u16(v, second);
    push_u32(v, 8);
}

/// A window of what follows `a` in `a + c` is that window of `c`.
proof fn lemma_window(a: Seq<u8>, c: Seq<u8>, i: int, n: int)
    requires
        0 <= i,
        0 <= n,
        i + n <= c.len(),
    ensures
        (a + c).subrange(a.len() + i, a.len() + i + n) == c.subrange(i, i + n),
{
    assert((a + c).subrange(a.len() + i, a.len() + i + n) =~= c.subrange(i, i + n));
}

/// Bytes that start with `table_head(first, second)` have their root table at 12 and its
/// vtable at 4, with the two fields at `first` and `second`.
proof fn lemma_table_head(first: u16, second: u16, body: Seq<u8>)
    requires
        body.len() >= 8,
    ensures
        fb_root(table_head(first, second) + body) == Some((12int, 4int)),
        fb_slot(table_head(first, second) + body, 4, 0) == first as int,
        fb_slot(table_head(first, second) + body, 4, 1) == second as int,
{
    let h = table_head(first, second);
    let b = h + body;
    assert(h.len() == 16);
    assert(b.subrange(0, 4) =~= le32(12));
    assert(b.subrange(4, 6) =~= le16(8));
    assert(b.subrange(6, 8) =~= le16(12));
    assert(b.subrange(8, 10) =~= le16(first));
    assert(b.subrange(10, 12) =~= le16(second));
    assert(b.subrange(12, 16) =~= le32(8));
    lemma_le32(12, b, 0);
    lemma_le16(8, b, 4);
    lemma_le16(first, b, 8);
    lemma_le16(second, b, 10);
    lemma_le32(8, b, 12);
    lemma_i32_bits(8);
}

// ---------------------------------------------------------------------------------------------
// The data packet: `sender` at table offset 8, `packet` (a vector of bytes) at offset 4.
// ---------------------------------------------------------------------------------------------

/// The bytes of a data packet: the table head; the offset (8) from the `packet` field to the
/// vector; the sender; the vector: its length and its bytes.
pub open spec fn data_packet_bytes(sender: i32, packet: Seq<u8>) -> Seq<u8> {
    table_head(8, 4) + data_packet_body(sender, packet)
}

/// What follows the table head in a data packet.
pub open spec fn data_packet_body(sender: i32, packet: Seq<u8>) -> Seq<u8> {
    le32(8) + le32(sender as u32) + le32(packet.len() as u32) + packet
}

/// What a data packet's bytes hold: its sender (0 when absent) and its packet, which must be
/// there; `None` for bytes that are no such table.
pub open spec fn parse_data_packet(b: Seq<u8>) -> Option<(i32, Seq<u8>)> {
    match fb_root(b) {
        None => None,
        Some((t, v)) => match (fb_i32(b, t, v, 0), fb_vector(b, t, v, 1, 1)) {
            (Some(sender), Some(Some((s, n)))) => Some((sender, b.subrange(s, s + n))),
            _ => None,
        },
    }
}

/// Writes a data packet.
pub fn encode_data_packet(data: &MultiplayerDataPacket) -> (b: Vec<u8>)
    requires
        data.packet@.len() <= u32::MAX,
    ensures
        b@ == data_packet_bytes(data.sender, data.packet@),
{
    let mut b: Vec<u8> = Vec::new();
    push_table_head(&mut b, 8, 4);
    push_u32(&mut b, 8);
    push_u32(&mut b, data.sender as u32);
    push_u32(&mut b, data.packet.len() as u32);
    let mut rest = slice_to_vec(data.packet.as_slice());
    b.append(&mut rest);
    assert(b@ =~= data_packet_bytes(data.sender, data.packet@));
    b
}

/// Reads a data packet.
pub fn decode_data_packet(bytes: &[u8]) -> (r: Option<MultiplayerDataPacket>)
    ensures
        match parse_data_packet(bytes@) {
            Some((sender, packet)) => r matches Some(d) && d.sender == sender && d.packet@ == packet,
            None => r is None,
        },
{
    let (t, v) = match root_of(bytes) {
        Some(p) => p,
        None => return None,
    };
    let sender = match read_i32_field(bytes, t, v, 0) {
        Some(s) => s,
        None => return None,
    };
    match read_vector_field(bytes, t, v, 1, 1) {
        Some(Some((s, n))) => {
            assert(n as int * 1 == n as int);
            let _len = bytes.len();
            let packet = slice_to_vec(slice_subrange(bytes, s, s + n));
            Some(MultiplayerDataPacket { sender, packet })
        },
        _ => None,
    }
}

/// A data packet reads back as written.
pub proof fn law_data_packet_roundtrip(sender: i32, packet: Seq<u8>)
    requires
        packet.len() <= u32::MAX,
    ensures
        parse_data_packet(data_packet_bytes(sender, packet)) == Some((sender, packet)),
{
    let h = table_head(8, 4);
    let body = data_packet_body(sender, packet);
    let b = data_packet_bytes(sender, packet);
    lemma_table_head(8, 4, body);
    assert(body.subrange(0, 4) =~= le32(8));
    assert(body.subrange(4, 8) =~= le32(sender as u32));
    assert(body.subrange(8, 12) =~= le32(packet.len() as u32));
    assert(body.subrange(12, 12 + packet.len() as int) =~= packet);
    lemma_window(h, body, 0, 4);
    lemma_window(h, body, 4, 4);
    lemma_window(h, body, 8, 4);
    lemma_window(h, body, 12, packet.len() as int);
    lemma_le32(8, b, 16);
    lemma_le32(sender as u32, b, 20);
    lemma_le32(packet.len() as u32, b, 24);
    lemma_i32_bits(sender);
}

// ---------------------------------------------------------------------------------------------
// The join request: `id` at table offset 4, `request_nodes` at offset 8 (one byte, padded).
// ---------------------------------------------------------------------------------------------

/// The bytes of a join request.
pub open spec fn connecting_bytes(id: i32, request_nodes: bool) -> Seq<u8> {
    table_head(4, 8) + connecting_body(id, request_nodes)
}

/// What follows the table head in a join request: the id, then the flag and three bytes of
/// padding.
pub open spec fn connecting_body(id: i32, request_nodes: bool) -> Seq<u8> {
    le32(id as u32) + seq![if request_nodes { 1u8 } else { 0u8 }, 0u8, 0u8, 0u8]
}

/// What a join request's bytes hold: the id (0 when absent) and the flag (false when absent);
/// `None` for bytes that are no such table.
pub open spec fn parse_connecting(b: Seq<u8>) -> Option<(i32, bool)> {
    match fb_root(b) {
        None => None,
        Some((t, v)) => match (fb_i32(b, t, v, 0), fb_bool(b, t, v, 1)) {
            (Some(id), Some(request_nodes)) => Some((id, request_nodes)),
            _ => None,
        },
    }
}

/// Writes a join request.
pub fn encode_connecting(message: &Connecting) -> (b: Vec<u8>)
    ensures
        b@ == connecting_bytes(message.id, message.request_nodes),
{
    let mut b: Vec<u8> = Vec::new();
    push_table_head(&mut b, 4, 8);
    push_u32(&mut b, message.id as u32);
    b.push(if message.request_nodes { 1u8 } else { 0u8 });
    b.push(0u8);
    b.push(0u8);
    b.push(0u8);
    assert(b@ =~= connecting_bytes(message.id, message.request_nodes));
    b
}

/// Reads a join request.
pub fn decode_connecting(bytes: &[u8]) -> (r: Option<Connecting>)
    ensures
        match parse_connecting(bytes@) {
            Some((id, request_nodes)) => r matches Some(c) && c.id == id && c.request_nodes == request_nodes,
            None => r is None,
        },
{
    let (t, v) = match root_of(bytes) {
        Some(p) => p,
        None => return None,
    };
    let id = match read_i32_field(bytes, t, v, 0) {
        Some(id) => id,
        None => return None,
    };
    match read_bool_field(bytes, t, v, 1) {
        Some(request_nodes) => Some(Connecting { id, request_nodes }),
        None => None,
    }
}

/// A join request reads back as written.
pub proof fn law_connecting_roundtrip(id: i32, request_nodes: bool)
    ensures
        parse_connecting(connecting_bytes(id, request_nodes)) == Some((id, request_nodes)),
{
    let h = table_head(4, 8);
    let body = connecting_body(id, request_nodes);
    let b = connecting_bytes(id, request_nodes);
    lemma_table_head(4, 8, body);
    assert(body.subrange(0, 4) =~= le32(id as u32));
    lemma_window(h, body, 0, 4);
    lemma_le32(id as u32, b, 16);
    lemma_i32_bits(id);
    assert(b[20] == body[4]);
}

// ---------------------------------------------------------------------------------------------
// The join answer: `id` at table offset 8, `nodes` (a vector of 32-byte structs) at offset 4,
// or absent (no vtable entry, four zero bytes in its place).
// ---------------------------------------------------------------------------------------------

/// The endpoint ids one after the other.
pub open spec fn node_bytes(nodes: Seq<Seq<u8>>) -> Seq<u8>
    decreases nodes.len(),
{
    if nodes.len() == 0 {
        Seq::empty()
    } else {
        node_bytes(nodes.drop_last()) + nodes.last()
    }
}

/// Every endpoint id is 32 bytes long.
pub open spec fn all_ids(nodes: Seq<Seq<u8>>) -> bool {
    forall|i: int| 0 <= i < nodes.len() ==> (#[trigger] nodes[i]).len() == 32
}

/// The bytes of a join answer.
pub open spec fn accepting_bytes(id: i32, nodes: Option<Seq<Seq<u8>>>) -> Seq<u8> {
    match nodes {
        Some(ns) => table_head(8, 4) + accepting_body(id, ns),
        None => table_head(8, 0) + le32(0) + le32(id as u32),
    }
}

/// What follows the table head in a join answer that lists endpoints.
pub open spec fn accepting_body(id: i32, ns: Seq<Seq<u8>>) -> Seq<u8> {
    le32(8) + le32(id as u32) + le32(ns.len() as u32) + node_bytes(ns)
}

/// The `count` endpoint ids stored from `start` on.
pub open spec fn ids_at(b: Seq<u8>, start: int, count: int) -> Seq<Seq<u8>> {
    Seq::new(count as nat, |k: int| b.subrange(start + 32 * k, start + 32 * k + 32))
}

/// What a join answer's bytes hold: the id (0 when absent) and the endpoint ids, if listed;
/// `None` for bytes that are no such table.
pub open spec fn parse_accepting(b: Seq<u8>) -> Option<(i32, Option<Seq<Seq<u8>>>)> {
    match fb_root(b) {
        None => None,
        Some((t, v)) => match (fb_i32(b, t, v, 0), fb_vector(b, t, v, 1, 32)) {
            (Some(id), Some(None)) => Some((id, None)),
            (Some(id), Some(Some((s, n)))) => Some((id, Some(ids_at(b, s, n)))),
            _ => None,
        },
    }
}

/// The concatenated ids are 32 bytes each, one after the other.
proof fn lemma_node_bytes(ns: Seq<Seq<u8>>)
    requires
        all_ids(ns),
    ensures
        node_bytes(ns).len() == 32 * ns.len(),
        forall|k: int| 0 <= k < ns.len() ==> #[trigger] node_bytes(ns).subrange(32 * k, 32 * k + 32) == ns[k],
    decreases ns.len(),
{
    if ns.len() > 0 {
        let init = ns.drop_last();
        assert(all_ids(init)) by {
            assert forall|i: int| 0 <= i < init.len() implies (#[trigger] init[i]).len() == 32 by {
                assert(init[i] == ns[i]);
            }
        }
        lemma_node_bytes(init);
        assert(ns.last().len() == 32);
        assert forall|k: int| 0 <= k < ns.len() implies #[trigger] node_bytes(ns).subrange(32 * k, 32 * k + 32) == ns[k] by {
            if k < ns.len() - 1 {
                assert(node_bytes(ns).subrange(32 * k, 32 * k + 32) =~= node_bytes(init).subrange(32 * k, 32 * k + 32));
                assert(init[k] == ns[k]);
            } else {
                assert(node_bytes(ns).subrange(32 * k, 32 * k + 32) =~= ns.last());
            }
        }
    }
}

/// The endpoint ids of a list, as the answer holds them.
spec fn id_views(nodes: Seq<[u8; 32]>) -> Seq<Seq<u8>> {
    nodes.map_values(|k: [u8; 32]| k@)
}

/// Writes a join answer.
pub fn encode_accepting(message: &Accepting) -> (b: Vec<u8>)
    requires
        message.nodes matches Some(ns) ==> ns@.len() <= u32::MAX,
    ensures
        b@ == accepting_bytes(message.id, listed_nodes(*message)),
{
    let mut b: Vec<u8> = Vec::new();
    match &message.nodes {
        None => {
            push_table_head(&mut b, 8, 0);
            push_u32(&mut b, 0);
            push_u32(&mut b, message.id as u32);
            assert(b@ =~= accepting_bytes(message.id, listed_nodes(*message)));
        },
        Some(nodes) => {
            push_table_head(&mut b, 8, 4);
            push_u32(&mut b, 8);
            push_u32(&mut b, message.id as u32);
            push_u32(&mut b, nodes.len() as u32);
            let ghost head = b@;
            let mut i: usize = 0;
            while i < nodes.len()
                invariant
                    i <= nodes@.len(),
                    b@ == head + node_bytes(id_views(nodes@).take(i as int)),
                decreases nodes@.len() - i,
            {
                let mut piece = slice_to_vec(&nodes[i]);
                b.append(&mut piece);
                proof {
                    let ns = id_views(nodes@);
                    assert(ns.take(i as int + 1).drop_last() =~= ns.take(i as int));
                    assert(ns.take(i as int + 1).last() == nodes@[i as int]@);
                }
                i = i + 1;
            }
            proof {
                assert(id_views(nodes@).take(nodes@.len() as int) =~= id_views(nodes@));
                assert(listed_nodes(*message) == Some(id_views(nodes@)));
            }
            assert(b@ =~= accepting_bytes(message.id, listed_nodes(*message)));
        },
    }
    b
}

/// Reads 32 bytes from `start` as an endpoint id.
fn read_id(bytes: &[u8], start: usize) -> (id: [u8; 32])
    requires
        within(bytes@, start as int, 32),
    ensures
        id@ == bytes@.subrange(start as int, start as int + 32),
{
    let _len = bytes.len();
    let mut id = [0u8; 32];
    let mut j: usize = 0;
    while j < 32
        invariant
            within(bytes@, start as int, 32),
            bytes@.len() <= usize::MAX,
            j <= 32,
            id@.len() == 32,
            forall|k: int| 0 <= k < j ==> id@[k] == bytes@[start + k],
        decreases 32 - j,
    {
        id[j] = bytes[start + j];
        j = j + 1;
    }
    assert(id@ =~= bytes@.subrange(start as int, start as int + 32));
    id
}

/// Reads a join answer.
pub fn decode_accepting(bytes: &[u8]) -> (r: Option<Accepting>)
    ensures
        match parse_accepting(bytes@) {
            Some((id, nodes)) => r matches Some(a) && a.id == id && listed_nodes(a) == nodes,
            None => r is None,
        },
{
    let (t, v) = match root_of(bytes) {
        Some(p) => p,
        None => return None,
    };
    let id = match read_i32_field(bytes, t, v, 0) {
        Some(id) => id,
        None => return None,
    };
    match read_vector_field(bytes, t, v, 1, 32) {
        None => None,
        Some(None) => Some(Accepting { id, nodes: None }),
        Some(Some((s, n))) => {
            let _len = bytes.len();
            let mut nodes: Vec<[u8; 32]> = Vec::new();
            let mut k: usize = 0;
            while k < n
                invariant
                    within(bytes@, s as int, n * 32),
                    bytes@.len() <= usize::MAX,
                    k <= n,
                    id_views(nodes@) == ids_at(bytes@, s as int, k as int),
                decreases n - k,
            {
                assert(32 * k + 32 <= n * 32) by (nonlinear_arith)
                    requires
                        k < n,
                ;
                assert(n as int * 32 == 32 * n as int);
                let node = read_id(bytes, s + 32 * k);
                let ghost before = nodes@;
                nodes.push(node);
                proof {
                    assert(id_views(nodes@) =~= id_views(before).push(node@));
                    assert(ids_at(bytes@, s as int, k as int + 1) =~= ids_at(bytes@, s as int, k as int).push(node@));
                }
                k = k + 1;
            }
            let a = Accepting { id, nodes: Some(nodes) };
            assert(listed_nodes(a) == Some(id_views(nodes@)));
            Some(a)
        },
    }
}

/// A join answer that lists nothing reads back as written.
proof fn lemma_accepting_unlisted(id: i32)
    ensures
        parse_accepting(accepting_bytes(id, None)) == Some((id, None::<Seq<Seq<u8>>>)),
{
    lemma_i32_bits(id);
    let h = table_head(8, 0);
    let body = le32(0) + le32(id as u32);
    let b = accepting_bytes(id, None);
    assert(b =~= h + body);
    lemma_table_head(8, 0, body);
    assert(body.subrange(4, 8) =~= le32(id as u32));
    lemma_window(h, body, 4, 4);
    lemma_le32(id as u32, b, 20);
}

/// The fixed fields of a join answer that lists endpoints read back as written.
proof fn lemma_accepting_fields(id: i32, ns: Seq<Seq<u8>>)
    requires
        all_ids(ns),
        ns.len() <= u32::MAX,
    ensures
        fb_root(accepting_bytes(id, Some(ns))) == Some((12int, 4int)),
        fb_i32(accepting_bytes(id, Some(ns)), 12, 4, 0) == Some(id),
        fb_vector(accepting_bytes(id, Some(ns)), 12, 4, 1, 32) == Some(Some((28int, ns.len() as int))),
{
    lemma_i32_bits(id);
    let h = table_head(8, 4);
    let body = accepting_body(id, ns);
    let b = accepting_bytes(id, Some(ns));
    lemma_node_bytes(ns);
    lemma_table_head(8, 4, body);
    assert(body.subrange(0, 4) =~= le32(8));
    assert(body.subrange(4, 8) =~= le32(id as u32));
    assert(body.subrange(8, 12) =~= le32(ns.len() as u32));
    lemma_window(h, body, 0, 4);
    lemma_window(h, body, 4, 4);
    lemma_window(h, body, 8, 4);
    lemma_le32(8, b, 16);
    lemma_le32(id as u32, b, 20);
    lemma_le32(ns.len() as u32, b, 24);
    assert(b.len() == 28 + 32 * ns.len());
}

/// The endpoint ids of a join answer read back as written.
proof fn lemma_accepting_ids(id: i32, ns: Seq<Seq<u8>>)
    requires
        all_ids(ns),
    ensures
        ids_at(accepting_bytes(id, Some(ns)), 28, ns.len() as int) == ns,
{
    let h = table_head(8, 4);
    let b = accepting_bytes(id, Some(ns));
    let pre = h + le32(8) + le32(id as u32) + le32(ns.len() as u32);
    assert(pre.len() == 28);
    assert(b =~= pre + node_bytes(ns));
    lemma_node_bytes(ns);
    assert forall|k: int| 0 <= k < ns.len() implies #[trigger] ids_at(b, 28, ns.len() as int)[k] == ns[k] by {
        lemma_window(pre, node_bytes(ns), 32 * k, 32);
    }
    assert(ids_at(b, 28, ns.len() as int) =~= ns);
}

/// A join answer reads back as written.
pub proof fn law_accepting_roundtrip(id: i32, nodes: Option<Seq<Seq<u8>>>)
    requires
        nodes matches Some(ns) ==> all_ids(ns) && ns.len() <= u32::MAX,
    ensures
        parse_accepting(accepting_bytes(id, nodes)) == Some((id, nodes)),
{
    match nodes {
        None => lemma_accepting_unlisted(id),
        Some(ns) => {
            lemma_accepting_fields(id, ns);
            lemma_accepting_ids(id, ns);
        },
    }
}

// ---------------------------------------------------------------------------------------------
// What follows a message: a message is read into a buffer larger than itself, and the bytes
// after it do not change what is read.
// ---------------------------------------------------------------------------------------------

proof fn lemma_u16_prefix(m: Seq<u8>, rest: Seq<u8>, i: int)
    requires
        within(m, i, 2),
    ensures
        u16_at(m + rest, i) == u16_at(m, i),
{
    assert((m + rest)[i] == m[i] && (m + rest)[i + 1] == m[i + 1]);
}

proof fn lemma_u32_prefix(m: Seq<u8>, rest: Seq<u8>, i: int)
    requires
        within(m, i, 4),
    ensures
        u32_at(m + rest, i) == u32_at(m, i),
        i32_at(m + rest, i) == i32_at(m, i),
{
    assert((m + rest)[i] == m[i] && (m + rest)[i + 1] == m[i + 1]);
    assert((m + rest)[i + 2] == m[i + 2] && (m + rest)[i + 3] == m[i + 3]);
}

/// Whatever follows a table, its root, its fields and its vectors read the same as without it.
proof fn lemma_table_ignores_what_follows(m: Seq<u8>, rest: Seq<u8>, t: int, v: int, f: int, size: int)
    requires
        fb_root(m) == Some((t, v)),
        0 <= f <= 1,
        1 <= size,
    ensures
        fb_root(m + rest) == Some((t, v)),
        fb_i32(m, t, v, f) is Some ==> fb_i32(m + rest, t, v, f) == fb_i32(m, t, v, f),
        fb_bool(m, t, v, f) is Some ==> fb_bool(m + rest, t, v, f) == fb_bool(m, t, v, f),
        fb_vector(m, t, v, f, size) is Some ==> fb_vector(m + rest, t, v, f, size) == fb_vector(m, t, v, f, size),
{
    let b = m + rest;
    lemma_u32_prefix(m, rest, 0);
    lemma_u32_prefix(m, rest, t);
    lemma_u16_prefix(m, rest, v);
    assert(fb_root(b) == fb_root(m));
    if 4 + 2 * f + 2 <= u16_at(m, v) as int {
        lemma_u16_prefix(m, rest, v + 4 + 2 * f);
    }
    assert(fb_slot(b, v, f) == fb_slot(m, v, f));
    let o = fb_slot(m, v, f);
    if o != 0 && within(m, t + o, 4) {
        lemma_u32_prefix(m, rest, t + o);
        let q = t + o + u32_at(m, t + o) as int;
        if within(m, q, 4) {
            lemma_u32_prefix(m, rest, q);
        }
    }
    if o != 0 && within(m, t + o, 1) {
        assert(b[t + o] == m[t + o]);
    }
}

/// A data packet reads back as written, whatever follows it in the buffer it is read from.
pub proof fn law_data_packet_reads_past_what_follows(sender: i32, packet: Seq<u8>, rest: Seq<u8>)
    requires
        packet.len() <= u32::MAX,
    ensures
        parse_data_packet(data_packet_bytes(sender, packet) + rest) == Some((sender, packet)),
{
    let m = data_packet_bytes(sender, packet);
    law_data_packet_roundtrip(sender, packet);
    let (t, v) = fb_root(m)->0;
    lemma_table_ignores_what_follows(m, rest, t, v, 0, 1);
    lemma_table_ignores_what_follows(m, rest, t, v, 1, 1);
    let (st, n) = fb_vector(m, t, v, 1, 1)->0->0;
    assert((m + rest).subrange(st, st + n) =~= m.subrange(st, st + n));
}

/// A join request reads back as written, whatever follows it in the buffer it is read from.
pub proof fn law_connecting_reads_past_what_follows(id: i32, request_nodes: bool, rest: Seq<u8>)
    ensures
        parse_connecting(connecting_bytes(id, request_nodes) + rest) == Some((id, request_nodes)),
{
    let m = connecting_bytes(id, request_nodes);
    law_connecting_roundtrip(id, request_nodes);
    let (t, v) = fb_root(m)->0;
    lemma_table_ignores_what_follows(m, rest, t, v, 0, 1);
    lemma_table_ignores_what_follows(m, rest, t, v, 1, 1);
}

/// A join answer reads back as written, whatever follows it in the buffer it is read from.
pub proof fn law_accepting_reads_past_what_follows(id: i32, nodes: Option<Seq<Seq<u8>>>, rest: Seq<u8>)
    requires
        nodes matches Some(ns) ==> all_ids(ns) && ns.len() <= u32::MAX,
    ensures
        parse_accepting(accepting_bytes(id, nodes) + rest) == Some((id, nodes)),
{
    let m = accepting_bytes(id, nodes);
    law_accepting_roundtrip(id, nodes);
    let (t, v) = fb_root(m)->0;
    lemma_table_ignores_what_follows(m, rest, t, v, 0, 32);
    lemma_table_ignores_what_follows(m, rest, t, v, 1, 32);
    match fb_vector(m, t, v, 1, 32)->0 {
        None => {},
        Some((st, n)) => {
            assert(n * 32 == 32 * n);
            assert forall|k: int| 0 <= k < n implies #[trigger] ids_at(m + rest, st, n)[k] == ids_at(m, st, n)[k] by {
                assert(32 * k + 32 <= 32 * n) by (nonlinear_arith)
                    requires
                        k < n,
                ;
                assert((m + rest).subrange(st + 32 * k, st + 32 * k + 32) =~= m.subrange(st + 32 * k, st + 32 * k + 32));
            }
            assert(ids_at(m + rest, st, n) =~= ids_at(m, st, n));
        },
    }
}

} // verus!
