use iroh_godot::api::{ApiCommands, ApiEvents};
use iroh_godot::extension::IrohMultiplayerPeer;
use iroh_godot::proto::{
    frame_packet, frame_size, read_frame, received_frame, Accepting, Connecting, JoinNext, JoinReply,
    JoinStep, MultiplayerProto, ProtoAction, ProtoCommand, MAX_PACKET_SIZE,
};
use iroh_godot::shared::{ConnectionStatus, GodotError, PeerSignal};

fn key(seed: u8) -> [u8; 32] {
    *iroh::SecretKey::from_bytes(&[seed; 32]).public().as_bytes()
}

fn sent(cmds: &[(i32, ProtoCommand)]) -> Vec<(i32, Vec<u8>)> {
    cmds.iter()
        .map(|(to, c)| match c {
            ProtoCommand::PushPacket(p) => (*to, p.clone()),
        })
        .collect()
}

#[test]
fn api_peer_starts_connecting() {
    let (p, ports) = IrohMultiplayerPeer::bootstrap(7777);
    assert_eq!((ports.ipv4, ports.ipv6), (7777, 7777));
    assert_eq!(p.get_connection_status(), ConnectionStatus::Connecting);
    assert_eq!(p.get_unique_id(), 0);
    assert_eq!(p.local_node_id(), "NULL");
    assert!(!p.is_server());
    assert_eq!(p.get_packet_peer(), -1);
    assert_eq!(p.get_max_packet_size(), MAX_PACKET_SIZE as i32);
    assert_eq!(p.get_max_packet_size(), 256);
}

#[test]
fn bind_event_connects_and_names_the_node() {
    let mut p = IrohMultiplayerPeer::bootstrap(0).0;
    let node = key(3);
    let sig = p.poll(ApiEvents::Bind { unique_id: 77, node_id: node });
    assert_eq!(sig, Some(PeerSignal::Bootstrapped));
    assert_eq!(p.get_unique_id(), 77);
    assert_eq!(p.get_connection_status(), ConnectionStatus::Connected);
    let expected = iroh::PublicKey::from_bytes(&node).unwrap().to_z32();
    assert_eq!(p.local_node_id(), expected);
    assert_ne!(p.local_node_id().as_bytes(), &node[..]);
}

#[test]
fn connection_events_become_signals_and_packets_queue() {
    let mut p = IrohMultiplayerPeer::bootstrap(0).0;
    assert_eq!(p.poll(ApiEvents::NewConnection(5)), Some(PeerSignal::PeerConnected(5)));
    assert_eq!(p.poll(ApiEvents::LostConnection(5)), Some(PeerSignal::PeerDisconnected(5)));
    assert_eq!(p.poll(ApiEvents::RecvPacket((5, vec![1, 2]))), None);
    assert_eq!(p.poll(ApiEvents::RecvPacket((6, vec![3]))), None);
    assert_eq!(p.get_available_packet_count(), 2);
    assert_eq!(p.get_packet_peer(), 5);
    assert_eq!(p.get_packet_script(), vec![1, 2]);
    assert_eq!(p.get_packet_peer(), 6);
    assert_eq!(p.get_packet_script(), vec![3]);
}

#[test]
fn godot_calls_become_commands() {
    let mut p = IrohMultiplayerPeer::bootstrap(0).0;
    assert!(matches!(p.close(), ApiCommands::Close));
    assert!(matches!(p.disconnect_peer(8, false), ApiCommands::DisconnectNode(8)));
    let (err, cmd) = p.put_packet_script(&[9, 9]);
    assert_eq!(err, GodotError::NoError);
    assert!(matches!(cmd, ApiCommands::BroadcastPacket(ref v) if *v == vec![9, 9]));
    p.set_target_peer(12);
    let (err, cmd) = p.put_packet_script(&[1]);
    assert_eq!(err, GodotError::NoError);
    assert!(matches!(cmd, ApiCommands::PushPacket { id: 12, ref packet } if *packet == vec![1]));
}

#[test]
fn join_parses_z32_node_ids() {
    let p = IrohMultiplayerPeer::bootstrap(0).0;
    let node = key(9);
    let text = iroh::PublicKey::from_bytes(&node).unwrap().to_z32();
    match p.join(&text) {
        Some(ApiCommands::JoinNode(k)) => assert_eq!(k, node),
        _ => panic!("a valid node id is joined"),
    }
    assert!(p.join("not a node id").is_none());
    assert!(p.join("").is_none());
}

#[test]
fn proto_ids_are_never_reserved() {
    for _ in 0..200 {
        let p = MultiplayerProto::new();
        assert!(p.unique_id() >= 2 && p.unique_id() < i32::MAX);
    }
}

#[test]
fn accept_lists_existing_peers_and_registers_joiner() {
    let mut acceptor = MultiplayerProto::new();
    acceptor.register(40, key(40));
    acceptor.register(41, key(41));
    let (reply, event) = acceptor.accept(&Connecting { id: 50, request_nodes: true }, key(50));
    assert_eq!(reply.id, acceptor.unique_id());
    assert_eq!(reply.nodes, Some(vec![key(40), key(41)]));
    assert!(matches!(event, ApiEvents::NewConnection(50)));
    assert_eq!(acceptor.node_of(50), Some(key(50)));

    let (reply, _) = acceptor.accept(&Connecting { id: 51, request_nodes: false }, key(51));
    assert_eq!(reply.nodes, None);
    assert_eq!(acceptor.node_of(51), Some(key(51)));
}

fn answered(id: i32, nodes: Option<Vec<[u8; 32]>>) -> JoinReply {
    JoinReply::Answered(Some(Accepting { id, nodes }))
}

fn kept(step: &JoinStep) -> Vec<(i32, bool)> {
    step.keep
        .iter()
        .map(|k| {
            assert!(matches!(k.event, ApiEvents::NewConnection(id) if id == k.id));
            (k.id, k.first)
        })
        .collect()
}

fn contact_of(next: &JoinNext) -> ([u8; 32], i32, bool, bool) {
    match next {
        JoinNext::Contact { node, hello, first } => (*node, hello.id, hello.request_nodes, *first),
        _ => panic!("a contact comes next"),
    }
}

#[test]
fn join_registers_contacts_before_the_first_peer() {
    let mut joiner = MultiplayerProto::new();
    let me = joiner.unique_id();
    let (mut join, next) = joiner.join_start(key(1));
    assert_eq!(contact_of(&next), (key(1), me, true, true));

    let step = joiner.join_step(&mut join, answered(7, Some(vec![key(2)])));
    assert!(kept(&step).is_empty());
    assert_eq!(contact_of(&step.next), (key(2), me, false, false));
    assert_eq!(joiner.node_of(7), None);

    let step = joiner.join_step(&mut join, answered(9, None));
    assert_eq!(kept(&step), vec![(9, false), (7, true)]);
    assert!(matches!(step.next, JoinNext::Done));
    assert_eq!(joiner.node_of(9), Some(key(2)));
    assert_eq!(joiner.node_of(7), Some(key(1)));
}

#[test]
fn failed_contact_ends_join_without_first_peer() {
    let mut joiner = MultiplayerProto::new();
    let (mut join, _) = joiner.join_start(key(1));
    let step = joiner.join_step(&mut join, answered(7, Some(vec![key(2), key(3)])));
    assert_eq!(contact_of(&step.next).0, key(2));
    let step = joiner.join_step(&mut join, answered(11, None));
    assert_eq!(kept(&step), vec![(11, false)]);
    assert_eq!(contact_of(&step.next).0, key(3));
    let step = joiner.join_step(&mut join, JoinReply::Failed);
    assert!(kept(&step).is_empty());
    assert!(matches!(step.next, JoinNext::Abort));
    assert_eq!(joiner.node_of(11), Some(key(2)));
    assert_eq!(joiner.node_of(7), None);
}

#[test]
fn first_answer_decides_whom_to_keep() {
    let mut joiner = MultiplayerProto::new();
    let (mut join, _) = joiner.join_start(key(1));
    let step = joiner.join_step(&mut join, answered(60, Some(vec![])));
    assert_eq!(kept(&step), vec![(60, true)]);
    assert!(matches!(step.next, JoinNext::Done));
    assert_eq!(joiner.node_of(60), Some(key(1)));

    let mut joiner = MultiplayerProto::new();
    let (mut join, _) = joiner.join_start(key(1));
    let step = joiner.join_step(&mut join, answered(60, None));
    assert!(kept(&step).is_empty());
    assert!(matches!(step.next, JoinNext::Done));
    assert_eq!(joiner.node_of(60), None);

    let mut joiner = MultiplayerProto::new();
    let (mut join, _) = joiner.join_start(key(1));
    let step = joiner.join_step(&mut join, JoinReply::Answered(None));
    assert!(kept(&step).is_empty());
    assert!(matches!(step.next, JoinNext::Done));

    let mut joiner = MultiplayerProto::new();
    let (mut join, _) = joiner.join_start(key(1));
    let step = joiner.join_step(&mut join, JoinReply::Failed);
    assert!(matches!(step.next, JoinNext::Abort));
}

#[test]
fn unreadable_contact_answer_is_skipped() {
    let mut joiner = MultiplayerProto::new();
    let (mut join, _) = joiner.join_start(key(1));
    joiner.join_step(&mut join, answered(7, Some(vec![key(2), key(3)])));
    let step = joiner.join_step(&mut join, JoinReply::Answered(None));
    assert!(kept(&step).is_empty());
    assert_eq!(contact_of(&step.next).0, key(3));
    let step = joiner.join_step(&mut join, answered(12, None));
    assert_eq!(kept(&step), vec![(12, false), (7, true)]);
    assert_eq!(joiner.node_of(12), Some(key(3)));
}

#[test]
fn connecting_requests_carry_the_unique_id() {
    let joiner = MultiplayerProto::new();
    let hello = joiner.connecting_request(true);
    assert_eq!(hello.id, joiner.unique_id());
    assert!(hello.request_nodes);
    assert!(!joiner.connecting_request(false).request_nodes);
}

#[test]
fn commands_route_packets_through_the_registry() {
    let mut p = MultiplayerProto::new();
    p.register(1, key(1));
    p.register(2, key(2));
    match p.handle_command(ApiCommands::PushPacket { id: 2, packet: vec![7] }) {
        ProtoAction::Send(cmds) => assert_eq!(sent(&cmds), vec![(2, vec![7])]),
        _ => panic!("push sends"),
    }
    match p.handle_command(ApiCommands::PushPacket { id: 3, packet: vec![7] }) {
        ProtoAction::Send(cmds) => assert!(cmds.is_empty()),
        _ => panic!("push sends"),
    }
    match p.handle_command(ApiCommands::BroadcastPacket(vec![4])) {
        ProtoAction::Send(cmds) => assert_eq!(sent(&cmds), vec![(1, vec![4]), (2, vec![4])]),
        _ => panic!("broadcast sends"),
    }
    assert!(matches!(p.handle_command(ApiCommands::DisconnectNode(1)), ProtoAction::Disconnect(Some(1))));
    assert!(matches!(p.handle_command(ApiCommands::DisconnectNode(1)), ProtoAction::Disconnect(None)));
    match p.handle_command(ApiCommands::BroadcastPacket(vec![4])) {
        ProtoAction::Send(cmds) => assert_eq!(sent(&cmds), vec![(2, vec![4])]),
        _ => panic!("broadcast sends"),
    }
    assert!(matches!(p.handle_command(ApiCommands::JoinNode(key(5))), ProtoAction::Join(k) if k == key(5)));
    assert!(matches!(p.handle_command(ApiCommands::Close), ProtoAction::Shutdown));
    assert_eq!(p.shutdown(), vec![2]);
    assert!(p.broadcast_packet(&[1]).is_empty());
}

#[test]
fn frames_are_length_prefixed() {
    assert_eq!(frame_packet(&[0xaa, 0xbb, 0xcc]), vec![0, 3, 0xaa, 0xbb, 0xcc]);
    assert_eq!(frame_packet(&[]), vec![0, 0]);
    assert_eq!(frame_size([1, 2]), 258);
    let big = vec![1u8; 300];
    let f = frame_packet(&big);
    assert_eq!(&f[..2], &[1, 44]);
    assert_eq!(read_frame(&f), Some((big.clone(), 302)));
}

#[test]
fn frame_roundtrip_leaves_the_rest() {
    let mut bytes = frame_packet(&[1, 2, 3]);
    bytes.extend_from_slice(&frame_packet(&[4]));
    let (first, used) = read_frame(&bytes).unwrap();
    assert_eq!(first, vec![1, 2, 3]);
    assert_eq!(used, 5);
    assert_eq!(read_frame(&bytes[used..]), Some((vec![4], 3)));
    assert_eq!(read_frame(&[0]), None);
    assert_eq!(read_frame(&[0, 5, 1, 2]), None);
}

#[test]
fn oversized_frame_wraps_its_length() {
    let big = vec![9u8; 65_536 + 2];
    let f = frame_packet(&big);
    assert_eq!(&f[..2], &[0, 2]);
    assert_eq!(read_frame(&f), Some((vec![9, 9], 4)));
}

#[test]
fn short_read_hands_on_a_zero_filled_packet() {
    match received_frame(5, [0, 3], &[9, 8]) {
        ApiEvents::RecvPacket((id, p)) => {
            assert_eq!(id, 5);
            assert_eq!(p, vec![9, 8, 0]);
        }
        _ => panic!("a packet is handed on"),
    }
    match received_frame(5, [0, 2], &[]) {
        ApiEvents::RecvPacket((_, p)) => assert_eq!(p, vec![0, 0]),
        _ => panic!("a packet is handed on"),
    }
}

#[test]
fn full_read_hands_on_the_framed_packet() {
    let framed = frame_packet(&[4, 5, 6]);
    let (packet, _) = read_frame(&framed).unwrap();
    match received_frame(8, [framed[0], framed[1]], &framed[2..]) {
        ApiEvents::RecvPacket((8, p)) => assert_eq!(p, packet),
        _ => panic!("a packet is handed on"),
    }
}

#[test]
fn accepted_join_contacts_the_acceptors_peers() {
    let mut acceptor = MultiplayerProto::new();
    acceptor.register(40, key(40));
    acceptor.register(41, key(41));
    let mut joiner = MultiplayerProto::new();
    let (mut join, next) = joiner.join_start(key(99));
    let hello = match next {
        JoinNext::Contact { hello, .. } => hello,
        _ => panic!("the first peer is contacted"),
    };
    let (reply, event) = acceptor.accept(&hello, key(50));
    assert!(matches!(event, ApiEvents::NewConnection(id) if id == joiner.unique_id()));
    assert_eq!(acceptor.node_of(joiner.unique_id()), Some(key(50)));
    let acceptor_id = reply.id;
    let step = joiner.join_step(&mut join, JoinReply::Answered(Some(reply)));
    assert!(step.keep.is_empty());
    assert_eq!(contact_of(&step.next), (key(40), joiner.unique_id(), false, false));
    let step = joiner.join_step(&mut join, answered(40, None));
    assert_eq!(contact_of(&step.next).0, key(41));
    let step = joiner.join_step(&mut join, answered(41, None));
    assert_eq!(kept(&step), vec![(41, false), (acceptor_id, true)]);
    assert_eq!(joiner.node_of(acceptor_id), Some(key(99)));
}

#[test]
fn accepted_join_with_no_other_peers_keeps_the_acceptor() {
    let mut acceptor = MultiplayerProto::new();
    let mut joiner = MultiplayerProto::new();
    let (mut join, next) = joiner.join_start(key(99));
    let hello = match next {
        JoinNext::Contact { hello, .. } => hello,
        _ => panic!("the first peer is contacted"),
    };
    let (reply, _) = acceptor.accept(&hello, key(50));
    let step = joiner.join_step(&mut join, JoinReply::Answered(Some(reply)));
    assert_eq!(kept(&step), vec![(acceptor.unique_id(), true)]);
    assert!(matches!(step.next, JoinNext::Done));
}

#[test]
fn connection_delivers_a_pushed_packet() {
    let packet = vec![3u8; 300];
    let frame = frame_packet(&packet);
    match received_frame(12, [frame[0], frame[1]], &frame[2..]) {
        ApiEvents::RecvPacket((12, p)) => assert_eq!(p, packet),
        _ => panic!("the packet is handed on"),
    }
}
