use iroh_godot::iroh_godot_protocol::{forwards_to, read_packet, OutboundConnection};
use iroh_godot::multiplayer_peer::extension::{ConnectFailure, IrohMultiplayerPeer};
use iroh_godot::multiplayer_peer::peer::Peer;
use iroh_godot::protocol::behaviour::GodotMultiplayerProto;
use iroh_godot::protocol::connections::{
    inbound_packet, MultiplayerDataPacket, RemoteConnection, MAX_PACKET_SIZE,
};
use iroh_godot::shared::{peer_id_from_bytes, ConnectionStatus, GodotError, PeerSignal};
use iroh_godot::MAX_ALLOWED_PACKET_SIZE;

fn key(seed: u8) -> [u8; 32] {
    *iroh::SecretKey::from_bytes(&[seed; 32]).public().as_bytes()
}

fn z32(k: &[u8; 32]) -> String {
    iroh::PublicKey::from_bytes(k).unwrap().to_z32()
}

fn bootstrapped() -> IrohMultiplayerPeer {
    IrohMultiplayerPeer::bootstrap(Some(Peer::init(key(1), GodotMultiplayerProto::new())))
}

#[test]
fn handshake_sends_own_id_big_endian() {
    let a = GodotMultiplayerProto::new();
    let b = GodotMultiplayerProto::new();
    assert!(a.get_unique_id() >= 1 && a.get_unique_id() < i32::MAX);
    assert_eq!(a.hello(), a.get_unique_id().to_be_bytes());
    assert_eq!(peer_id_from_bytes(a.hello()), a.get_unique_id());
    assert_eq!(peer_id_from_bytes(b.hello()), b.get_unique_id());
}

#[test]
fn unbootstrapped_peer_reports_disconnected() {
    let p = IrohMultiplayerPeer::bootstrap(None);
    assert_eq!(p.get_connection_status(), ConnectionStatus::Disconnected);
    assert_eq!(p.get_unique_id(), 0);
    assert_eq!(p.local_node_id(), "Not connected to the iroh network");
    assert_eq!(p.connect_to_node(&z32(&key(2))), Err(ConnectFailure::NotBootstrapped));
    assert_eq!(p.get_packet_peer(), 0);
    assert!(!p.is_server());
    assert_eq!(p.get_max_packet_size(), MAX_PACKET_SIZE as i32);
}

#[test]
fn bootstrapped_peer_reports_its_identity() {
    let proto = GodotMultiplayerProto::new();
    let id = proto.get_unique_id();
    let p = IrohMultiplayerPeer::bootstrap(Some(Peer::init(key(1), proto)));
    assert_eq!(p.get_connection_status(), ConnectionStatus::Connected);
    assert_eq!(p.get_unique_id(), id);
    assert_eq!(p.local_node_id(), z32(&key(1)));
    assert_eq!(p.connect_to_node(&z32(&key(2))), Ok(key(2)));
    assert_eq!(p.connect_to_node("nonsense"), Err(ConnectFailure::InvalidNodeId));
}

#[test]
fn inbound_connections_and_packets() {
    let mut p = bootstrapped();
    assert_eq!(p.poll_inbound_connection(30, key(30)), PeerSignal::PeerConnected(30));
    assert_eq!(p.remote_node_id(30), z32(&key(30)));
    assert_eq!(p.remote_node_id(31), "Not a connected peer ID");
    p.poll_inbound_packet(MultiplayerDataPacket { sender: 30, packet: vec![1, 2] });
    p.poll_inbound_packet(MultiplayerDataPacket { sender: 44, packet: vec![3] });
    assert_eq!(p.get_available_packet_count(), 2);
    assert_eq!(p.get_packet_peer(), 30);
    assert_eq!(p.get_packet_script(), vec![1, 2]);
    assert_eq!(p.get_packet_peer(), 44);
    assert_eq!(p.get_packet_script(), vec![3]);
    assert_eq!(p.get_packet_script(), Vec::<u8>::new());
}

#[test]
fn put_packet_refuses_unknown_targets() {
    let mut p = bootstrapped();
    p.poll_inbound_connection(30, key(30));
    p.poll_inbound_connection(31, key(31));
    let (err, out) = p.put_packet_script(&[5]);
    assert_eq!(err, GodotError::NoError);
    assert_eq!(out, vec![(30, vec![5]), (31, vec![5])]);
    p.set_target_peer(31);
    assert_eq!(p.put_packet_script(&[6]), (GodotError::NoError, vec![(31, vec![6])]));
    p.set_target_peer(99);
    assert_eq!(p.put_packet_script(&[6]), (GodotError::ErrDoesNotExist, vec![]));
}

#[test]
fn disconnect_forgets_the_peer() {
    let mut p = bootstrapped();
    p.poll_inbound_connection(30, key(30));
    assert!(p.disconnect_peer(30, false));
    assert!(!p.disconnect_peer(30, false));
    assert_eq!(p.remote_node_id(30), "Not a connected peer ID");
    p.set_target_peer(30);
    assert_eq!(p.put_packet_script(&[1]).0, GodotError::ErrDoesNotExist);
}

#[test]
fn remote_connection_stamps_and_names() {
    let c = RemoteConnection::new(12, key(4));
    assert_eq!(c.get_node_id(), z32(&key(4)));
    let d = c.outbound_packet(vec![8, 9]);
    assert_eq!(d.sender, 12);
    assert_eq!(d.packet, vec![8, 9]);
}

#[test]
fn inbound_packets_fill_the_whole_buffer() {
    let p = inbound_packet(&[1, 2, 3]);
    assert_eq!(p.len(), MAX_PACKET_SIZE);
    assert_eq!(&p[..3], &[1, 2, 3]);
    assert!(p[3..].iter().all(|b| *b == 0));
    assert_eq!(inbound_packet(&[]), vec![0u8; 256]);
}

#[test]
fn star_protocol_decisions() {
    let c = OutboundConnection::new();
    assert!(c.get_id() >= 2 && c.get_id() < i32::MAX);
    assert_eq!(c.host_id(), 1);
    assert!(forwards_to(7, 7));
    assert!(!forwards_to(7, 8));
    let buf = vec![3u8; MAX_ALLOWED_PACKET_SIZE];
    assert_eq!(read_packet(&buf, 10), Some(buf.clone()));
    assert_eq!(read_packet(&buf, MAX_ALLOWED_PACKET_SIZE), Some(buf.clone()));
    assert_eq!(read_packet(&buf, MAX_ALLOWED_PACKET_SIZE + 1), None);
}
