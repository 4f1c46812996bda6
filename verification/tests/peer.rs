use iroh_godot::shared::{ConnectionStatus, GodotError, PeerSignal, TransferMode};
use iroh_godot::{
    packet_length_header, packet_size_from_header, IrohConnectionCommands, IrohConnectionEvents,
    IrohMultiplayerPeer, IrohRouterEvents, MAX_PACKET_SIZE,
};

fn connect(p: &mut IrohMultiplayerPeer, id: i32) -> PeerSignal {
    p.poll_router_event(IrohRouterEvents::NewConnectionAccepted { multiplayer_id: id })
}

fn pushes(r: &(GodotError, Vec<iroh_godot::Dispatch>)) -> Vec<(i32, Vec<u8>)> {
    r.1.iter()
        .map(|d| match &d.command {
            IrohConnectionCommands::PushPacket(p) => (d.to, p.clone()),
            IrohConnectionCommands::Close => panic!("unexpected close"),
        })
        .collect()
}

#[test]
fn fresh_peer_is_disconnected_and_empty() {
    let p = IrohMultiplayerPeer::init();
    assert_eq!(p.get_unique_id(), -1);
    assert_eq!(p.get_connection_status(), ConnectionStatus::Disconnected);
    assert!(!p.is_server());
    assert!(!p.listens_for_router_events());
    assert_eq!(p.get_available_packet_count(), 0);
    assert_eq!(p.get_packet_peer(), -1);
    assert_eq!(p.get_public_id(), "");
    assert_eq!(p.get_max_packet_size(), 2048);
    assert_eq!(MAX_PACKET_SIZE, 2048);
    assert_eq!(p.get_packet_channel(), 0);
    assert_eq!(p.get_transfer_channel(), 0);
    assert_eq!(p.get_packet_mode(), TransferMode::Reliable);
    assert_eq!(p.get_transfer_mode(), TransferMode::Reliable);
}

#[test]
fn created_instance_is_the_server() {
    let mut p = IrohMultiplayerPeer::init();
    assert_eq!(p.create_instance(), 1);
    assert_eq!(p.get_unique_id(), 1);
    assert!(p.is_server());
    assert_eq!(p.get_connection_status(), ConnectionStatus::Connecting);
    assert!(p.listens_for_router_events());
}

#[test]
fn public_key_is_shown_as_lower_hex_and_second_key_connects() {
    let mut p = IrohMultiplayerPeer::init();
    p.create_instance();
    let mut key = [0u8; 32];
    key[0] = 0xab;
    key[1] = 0x05;
    key[31] = 0xf0;
    assert_eq!(p.poll_router_event(IrohRouterEvents::NewPublicId(key)), PeerSignal::PublicIdChanged);
    let shown = p.get_public_id();
    assert_eq!(shown.len(), 64);
    assert!(shown.starts_with("ab05"));
    assert!(shown.ends_with("f0"));
    // The first key leaves the status as it was; a replacing key marks the peer connected.
    assert_eq!(p.get_connection_status(), ConnectionStatus::Connecting);
    p.poll_router_event(IrohRouterEvents::NewPublicId([0x11; 32]));
    assert_eq!(p.get_connection_status(), ConnectionStatus::Connected);
    assert_eq!(p.get_public_id(), "11".repeat(32));
}

#[test]
fn public_id_matches_iroh_display() {
    let key = iroh::SecretKey::from_bytes(&[7u8; 32]).public();
    let mut p = IrohMultiplayerPeer::init();
    p.poll_router_event(IrohRouterEvents::NewPublicId(*key.as_bytes()));
    assert_eq!(p.get_public_id(), key.to_string());
}

#[test]
fn packets_reach_godot_in_arrival_order() {
    let mut p = IrohMultiplayerPeer::init();
    p.poll_connection_event(4, IrohConnectionEvents::RecvPacket(vec![1]));
    p.poll_connection_event(9, IrohConnectionEvents::RecvPacket(vec![2, 2]));
    assert_eq!(p.get_available_packet_count(), 2);
    assert_eq!(p.get_packet_peer(), 4);
    assert_eq!(p.get_packet_script(), vec![1]);
    assert_eq!(p.get_packet_peer(), 9);
    assert_eq!(p.get_packet_script(), vec![2, 2]);
    assert_eq!(p.get_packet_peer(), -1);
    assert_eq!(p.get_packet_script(), Vec::<u8>::new());
    assert_eq!(p.get_available_packet_count(), 0);
}

#[test]
fn broadcast_goes_to_every_connection_once() {
    let mut p = IrohMultiplayerPeer::init();
    assert_eq!(connect(&mut p, 10), PeerSignal::PeerConnected(10));
    connect(&mut p, 20);
    connect(&mut p, 10);
    let r = p.put_packet_script(&[5, 6]);
    assert_eq!(r.0, GodotError::NoError);
    assert_eq!(pushes(&r), vec![(10, vec![5, 6]), (20, vec![5, 6])]);
}

#[test]
fn targeted_packet_goes_to_target_only() {
    let mut p = IrohMultiplayerPeer::init();
    connect(&mut p, 10);
    connect(&mut p, 20);
    p.set_target_peer(20);
    let r = p.put_packet_script(&[1]);
    assert_eq!(r.0, GodotError::NoError);
    assert_eq!(pushes(&r), vec![(20, vec![1])]);
    p.set_target_peer(30);
    let r = p.put_packet_script(&[1]);
    assert_eq!(r.0, GodotError::NoError);
    assert!(r.1.is_empty());
}

#[test]
fn disconnected_peer_gets_nothing() {
    let mut p = IrohMultiplayerPeer::init();
    connect(&mut p, 10);
    connect(&mut p, 20);
    let d = p.disconnect_peer(10, false).expect("10 was connected");
    assert_eq!(d.to, 10);
    assert!(matches!(d.command, IrohConnectionCommands::Close));
    assert!(p.disconnect_peer(10, true).is_none());
    assert_eq!(pushes(&p.put_packet_script(&[3])), vec![(20, vec![3])]);
    p.set_target_peer(10);
    assert!(p.put_packet_script(&[3]).1.is_empty());
}

#[test]
fn transfer_settings_are_ignored() {
    let mut p = IrohMultiplayerPeer::init();
    p.set_transfer_channel(3);
    p.set_transfer_mode(TransferMode::Unreliable);
    assert_eq!(p.get_transfer_channel(), 0);
    assert_eq!(p.get_transfer_mode(), TransferMode::Reliable);
}

#[test]
fn length_header_announces_packet_length() {
    let packet = vec![0u8; 300];
    let h = packet_length_header(&packet);
    assert_eq!(h, [0, 0, 1, 44]);
    assert_eq!(packet_size_from_header(h), 300);
    assert_eq!(packet_size_from_header(packet_length_header(&[])), 0);
    assert_eq!(packet_size_from_header([0xff, 0xff, 0xff, 0xff]), usize::MAX);
}
