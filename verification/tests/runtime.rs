use iroh_godot::network::multiplayer_peer::IrohMultiplayerPeer;
use iroh_godot::network::runtime::{
    create_topic, join_topic, plan_command, runtime_step, runtime_unique_id, topic_step, Command, Event,
    LoopStep, RuntimeInput, RuntimeStep, TopicEvent, TopicStep,
};
use iroh_godot::network::tickets::{ticket_bytes, ticket_text, GossipTicket};
use iroh_godot::shared::{ConnectionStatus, PeerSignal};

#[test]
fn runtime_peer_follows_events() {
    let mut p = IrohMultiplayerPeer::initialize();
    assert_eq!(p.get_connection_status(), ConnectionStatus::Connecting);
    assert_eq!(p.get_unique_id(), 0);
    assert!(!p.is_server());
    assert_eq!(p.poll(Event::Connected(42)), Some(PeerSignal::IrohConnected));
    assert_eq!(p.get_connection_status(), ConnectionStatus::Connected);
    assert_eq!(p.get_unique_id(), 42);
    assert_eq!(p.poll(Event::JoiningTopic("abc".to_string())), None);
    assert_eq!(p.poll(Event::JoinedTopic { ticket: "abc".to_string(), topic: 3 }), Some(PeerSignal::JoinedTopic(3)));
    assert_eq!(p.get_unique_id(), 42);
    assert!(matches!(p.close(), Command::Close));
}

#[test]
fn join_topic_command_depends_on_text() {
    let p = IrohMultiplayerPeer::initialize();
    assert!(matches!(p.join_topic(String::new()), Command::JoinTopic(None)));
    assert!(matches!(p.join_topic("TICKET".to_string()), Command::JoinTopic(Some(ref t)) if t == "TICKET"));
}

#[test]
fn commands_plan_runtime_steps() {
    assert!(matches!(plan_command(Command::Close), RuntimeStep::Shutdown));
    assert!(matches!(plan_command(Command::JoinTopic(None)), RuntimeStep::CreateTopic));
    assert!(matches!(plan_command(Command::JoinTopic(Some("x".into()))), RuntimeStep::JoinExisting(ref t) if t == "x"));
}

#[test]
fn runtime_ids_are_assignable() {
    for _ in 0..500 {
        let id = runtime_unique_id();
        assert!(id >= 2 && id < i32::MAX);
    }
}

#[test]
fn created_topic_lists_only_me() {
    let (ticket, bootstrap) = create_topic([5u8; 32]);
    assert_eq!(ticket.get_nodes(), vec![[5u8; 32]]);
    assert!(bootstrap.is_empty());
}

#[test]
fn joining_extends_the_ticket() {
    let old = GossipTicket::new([1u8; 32], vec![[2u8; 32], [3u8; 32]]);
    assert_eq!(old.get_topic(), [1u8; 32]);
    let (new, bootstrap) = join_topic(&old, [4u8; 32]);
    assert_eq!(new.get_topic(), [1u8; 32]);
    assert_eq!(new.get_nodes(), vec![[2u8; 32], [3u8; 32], [4u8; 32]]);
    assert_eq!(bootstrap, vec![[2u8; 32], [3u8; 32]]);
    assert_eq!(old.get_nodes(), vec![[2u8; 32], [3u8; 32]]);
}

#[test]
fn ticket_text_is_unpadded_base32() {
    assert_eq!(ticket_text(b"hello"), "NBSWY3DP");
    assert_eq!(ticket_text(b"f"), "MY");
    assert_eq!(ticket_bytes("NBSWY3DP"), Some(b"hello".to_vec()));
    assert_eq!(ticket_bytes("nbswy3dp"), Some(b"hello".to_vec()));
    assert_eq!(ticket_bytes("NBSWY3DP="), None);
    assert_eq!(ticket_bytes("!!"), None);
    let raw: Vec<u8> = (0u8..=255).collect();
    assert_eq!(ticket_bytes(&ticket_text(&raw)), Some(raw));
}

#[test]
fn runtime_loop_stops_and_skips_as_decided() {
    assert!(matches!(runtime_step(RuntimeInput::Announced { delivered: true }), LoopStep::Wait));
    assert!(matches!(runtime_step(RuntimeInput::Announced { delivered: false }), LoopStep::Stop));
    assert!(matches!(runtime_step(RuntimeInput::Closed), LoopStep::Stop));
    assert!(matches!(runtime_step(RuntimeInput::Lagged), LoopStep::Wait));
    assert!(matches!(runtime_step(RuntimeInput::Command(Command::Close)), LoopStep::Run(RuntimeStep::Shutdown)));
    match runtime_step(RuntimeInput::Command(Command::JoinTopic(Some("abc".to_string())))) {
        LoopStep::Run(RuntimeStep::JoinExisting(t)) => assert_eq!(t, "abc"),
        _ => panic!("a ticket is joined"),
    }
    assert!(matches!(runtime_step(RuntimeInput::Command(Command::JoinTopic(None))), LoopStep::Run(RuntimeStep::CreateTopic)));
}

#[test]
fn topic_task_forwards_messages_and_stops_on_errors() {
    assert!(matches!(topic_step(TopicEvent::Received), TopicStep::Forward));
    assert!(matches!(topic_step(TopicEvent::Other), TopicStep::Skip));
    assert!(matches!(topic_step(TopicEvent::Failed), TopicStep::Stop));
}
