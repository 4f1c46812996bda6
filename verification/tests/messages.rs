use flatbuffers::{FlatBufferBuilder, WIPOffset};
use iroh_godot::iroh_godot_protocol::create_flatbuffer;
use iroh_godot::messages::{
    decode_accepting, decode_connecting, decode_data_packet, encode_accepting, encode_connecting,
    encode_data_packet,
};
use iroh_godot::multiplayer_peer::extension::process_packet;
use iroh_godot::proto::{Accepting, Connecting};
use iroh_godot::protocol::connections::MultiplayerDataPacket;

fn node(seed: u8) -> [u8; 32] {
    [seed; 32]
}

#[test]
fn data_packet_layout_is_exact() {
    let bytes = encode_data_packet(&MultiplayerDataPacket { sender: 7, packet: vec![1, 2, 3] });
    assert_eq!(
        bytes,
        vec![12, 0, 0, 0, 8, 0, 12, 0, 8, 0, 4, 0, 8, 0, 0, 0, 8, 0, 0, 0, 7, 0, 0, 0, 3, 0, 0, 0, 1, 2, 3]
    );
}

#[test]
fn data_packet_roundtrip() {
    for (sender, packet) in [(7, vec![1, 2, 3]), (-5, vec![]), (i32::MAX, vec![0; 300]), (i32::MIN, vec![9])] {
        let bytes = encode_data_packet(&MultiplayerDataPacket { sender, packet: packet.clone() });
        let data = decode_data_packet(&bytes).expect("a data packet reads back");
        assert_eq!((data.sender, data.packet), (sender, packet.clone()));
        assert_eq!(process_packet(&bytes), Some((sender, packet)));
    }
}

#[test]
fn create_flatbuffer_stamps_the_id() {
    let bytes = create_flatbuffer(42, vec![8, 9]);
    assert_eq!(process_packet(&bytes), Some((42, vec![8, 9])));
}

#[test]
fn data_packet_written_by_flatbuffers_is_read() {
    let mut fbb = FlatBufferBuilder::new();
    let packet = fbb.create_vector(&[5u8, 6, 7][..]);
    let start = fbb.start_table();
    fbb.push_slot_always::<WIPOffset<_>>(6, packet);
    fbb.push_slot::<i32>(4, -9, 0);
    let root = fbb.end_table(start);
    fbb.finish(root, None);
    assert_eq!(process_packet(fbb.finished_data()), Some((-9, vec![5, 6, 7])));

    // The sender left at its default is not written, and reads as 0.
    let mut fbb = FlatBufferBuilder::new();
    let packet = fbb.create_vector(&[1u8][..]);
    let start = fbb.start_table();
    fbb.push_slot_always::<WIPOffset<_>>(6, packet);
    fbb.push_slot::<i32>(4, 0, 0);
    let root = fbb.end_table(start);
    fbb.finish(root, None);
    assert_eq!(process_packet(fbb.finished_data()), Some((0, vec![1])));
}

#[test]
fn malformed_data_packets_are_refused() {
    assert_eq!(process_packet(&[]), None);
    assert_eq!(process_packet(&[200, 0, 0, 0]), None);
    // The packet field is required.
    let mut fbb = FlatBufferBuilder::new();
    let start = fbb.start_table();
    fbb.push_slot::<i32>(4, 3, 0);
    let root = fbb.end_table(start);
    fbb.finish(root, None);
    assert_eq!(process_packet(fbb.finished_data()), None);
    // A vector longer than the bytes.
    let mut bytes = encode_data_packet(&MultiplayerDataPacket { sender: 1, packet: vec![1, 2] });
    bytes.truncate(bytes.len() - 1);
    assert_eq!(process_packet(&bytes), None);
}

#[test]
fn connecting_layout_and_roundtrip() {
    let bytes = encode_connecting(&Connecting { id: 258, request_nodes: true });
    assert_eq!(bytes, vec![12, 0, 0, 0, 8, 0, 12, 0, 4, 0, 8, 0, 8, 0, 0, 0, 2, 1, 0, 0, 1, 0, 0, 0]);
    assert!(bytes.len() <= iroh_godot::proto::CONNECT_BUFFER_SIZE);
    for (id, request_nodes) in [(258, true), (-1, false), (0, true)] {
        let c = decode_connecting(&encode_connecting(&Connecting { id, request_nodes })).unwrap();
        assert_eq!((c.id, c.request_nodes), (id, request_nodes));
    }
    // Read from a zero-filled receive buffer, as the protocol does.
    let mut buf = vec![0u8; iroh_godot::proto::CONNECT_BUFFER_SIZE];
    buf[..bytes.len()].copy_from_slice(&bytes);
    let c = decode_connecting(&buf).unwrap();
    assert_eq!((c.id, c.request_nodes), (258, true));
}

#[test]
fn connecting_written_by_flatbuffers_is_read() {
    let mut fbb = FlatBufferBuilder::new();
    let start = fbb.start_table();
    fbb.push_slot::<i32>(4, 77, 0);
    fbb.push_slot::<bool>(6, true, false);
    let root = fbb.end_table(start);
    fbb.finish(root, None);
    let c = decode_connecting(fbb.finished_data()).unwrap();
    assert_eq!((c.id, c.request_nodes), (77, true));

    let mut fbb = FlatBufferBuilder::new();
    let start = fbb.start_table();
    fbb.push_slot::<i32>(4, 77, 0);
    fbb.push_slot::<bool>(6, false, false);
    let root = fbb.end_table(start);
    fbb.finish(root, None);
    let c = decode_connecting(fbb.finished_data()).unwrap();
    assert_eq!((c.id, c.request_nodes), (77, false));
    assert!(decode_connecting(&[1, 2, 3]).is_none());
}

#[test]
fn accepting_roundtrip() {
    for nodes in [Some(vec![node(1), node(2)]), Some(vec![]), None] {
        let bytes = encode_accepting(&Accepting { id: -3, nodes: nodes.clone() });
        let a = decode_accepting(&bytes).unwrap();
        assert_eq!((a.id, a.nodes), (-3, nodes));
    }
    let bytes = encode_accepting(&Accepting { id: 5, nodes: None });
    assert_eq!(bytes, vec![12, 0, 0, 0, 8, 0, 12, 0, 8, 0, 0, 0, 8, 0, 0, 0, 0, 0, 0, 0, 5, 0, 0, 0]);
    // Read from a zero-filled receive buffer, as the protocol does.
    let bytes = encode_accepting(&Accepting { id: 9, nodes: Some(vec![node(4)]) });
    let mut buf = vec![0u8; iroh_godot::proto::ACCEPT_BUFFER_SIZE];
    buf[..bytes.len()].copy_from_slice(&bytes);
    let a = decode_accepting(&buf).unwrap();
    assert_eq!((a.id, a.nodes), (9, Some(vec![node(4)])));
}

#[test]
fn accepting_written_by_flatbuffers_is_read() {
    let mut fbb = FlatBufferBuilder::new();
    fbb.start_vector::<u8>(64);
    for b in [node(2), node(1)].iter().flat_map(|n| n.iter().rev()) {
        fbb.push(*b);
    }
    let nodes = fbb.end_vector::<u8>(2);
    let start = fbb.start_table();
    fbb.push_slot_always::<WIPOffset<_>>(6, nodes);
    fbb.push_slot::<i32>(4, 11, 0);
    let root = fbb.end_table(start);
    fbb.finish(root, None);
    let a = decode_accepting(fbb.finished_data()).unwrap();
    assert_eq!((a.id, a.nodes), (11, Some(vec![node(1), node(2)])));

    let mut fbb = FlatBufferBuilder::new();
    let start = fbb.start_table();
    fbb.push_slot::<i32>(4, 11, 0);
    let root = fbb.end_table(start);
    fbb.finish(root, None);
    let a = decode_accepting(fbb.finished_data()).unwrap();
    assert_eq!((a.id, a.nodes), (11, None));
}
