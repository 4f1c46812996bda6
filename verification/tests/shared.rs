use iroh_godot::shared::{
    peer_id_from_bytes, peer_id_to_bytes, random_peer_id, PacketQueue, PeerRegistry,
    SERVER_PEER_ID, TARGET_PEER_BROADCAST,
};

#[test]
fn queue_hands_packets_out_in_arrival_order() {
    let mut q = PacketQueue::new();
    assert_eq!(q.len(), 0);
    assert_eq!(q.front_sender(), None);
    q.push_back(5, vec![1, 2]);
    q.push_back(9, vec![3]);
    q.push_back(5, vec![]);
    assert_eq!(q.len(), 3);
    assert_eq!(q.front_sender(), Some(5));
    assert_eq!(q.pop_front(), Some((5, vec![1, 2])));
    assert_eq!(q.front_sender(), Some(9));
    assert_eq!(q.pop_front(), Some((9, vec![3])));
    assert_eq!(q.pop_front(), Some((5, vec![])));
    assert_eq!(q.pop_front(), None);
    assert_eq!(q.len(), 0);
}

#[test]
fn peer_id_is_big_endian_twos_complement() {
    assert_eq!(peer_id_to_bytes(1), [0, 0, 0, 1]);
    assert_eq!(peer_id_to_bytes(0x01020304), [1, 2, 3, 4]);
    assert_eq!(peer_id_to_bytes(-1), [0xff, 0xff, 0xff, 0xff]);
    assert_eq!(peer_id_to_bytes(i32::MIN), [0x80, 0, 0, 0]);
    assert_eq!(peer_id_from_bytes([0x7f, 0xff, 0xff, 0xff]), i32::MAX);
    assert_eq!(peer_id_from_bytes([0xff, 0xff, 0xff, 0xfe]), -2);
}

#[test]
fn peer_id_handshake_roundtrips() {
    for id in [0, 1, 2, 255, 256, 65_537, -1, -300, i32::MAX, i32::MIN, 1_234_567_890] {
        assert_eq!(peer_id_from_bytes(peer_id_to_bytes(id)), id);
    }
    assert_eq!(peer_id_to_bytes(i32::from_be_bytes([9, 8, 7, 6])), [9, 8, 7, 6]);
}

#[test]
fn random_peer_ids_avoid_reserved_ids() {
    for _ in 0..2000 {
        let id = random_peer_id();
        assert!(id >= 2 && id < i32::MAX);
        assert_ne!(id, TARGET_PEER_BROADCAST);
        assert_ne!(id, SERVER_PEER_ID);
    }
}

#[test]
fn registry_reads_back_what_was_written() {
    let mut r = PeerRegistry::new();
    assert!(!r.insert(3, [3u8; 32]));
    assert!(!r.insert(7, [7u8; 32]));
    assert!(r.contains(3));
    assert_eq!(r.node_of(7), Some([7u8; 32]));
    assert!(r.insert(3, [4u8; 32]));
    assert_eq!(r.len(), 2);
    assert_eq!(r.node_of(3), Some([4u8; 32]));
    assert_eq!(r.node_of(7), Some([7u8; 32]));
    assert_eq!(r.ids(), vec![3, 7]);
    assert_eq!(r.nodes(), vec![[4u8; 32], [7u8; 32]]);
    assert_eq!(r.remove(3), Some([4u8; 32]));
    assert_eq!(r.remove(3), None);
    assert!(!r.contains(3));
    assert_eq!(r.node_of(7), Some([7u8; 32]));
    assert_eq!(r.clear(), vec![7]);
    assert_eq!(r.len(), 0);
}
