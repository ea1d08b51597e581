use chat_relay::codec::{ChatRequest, ChatResponse};
use chat_relay::relay::{ClientMessage, ServerMessage};
use chat_relay::session::{parse_text, response_for, text_frames, ChatSession, TextCommand};

fn forward_text(m: &Option<ServerMessage<u32>>) -> (usize, String, String) {
    match m {
        Some(ServerMessage::Message { id, msg, room }) => (*id, msg.clone(), room.clone()),
        _ => panic!("not a message"),
    }
}

#[test]
fn parse_recognises_commands() {
    assert_eq!(parse_text("/list"), TextCommand::List);
    assert_eq!(parse_text("/list now"), TextCommand::List);
    assert_eq!(parse_text("/join lobby"), TextCommand::Join("lobby".to_string()));
    assert_eq!(parse_text("/join big room"), TextCommand::Join("big room".to_string()));
    assert_eq!(parse_text("/name Ann"), TextCommand::Name("Ann".to_string()));
    assert_eq!(parse_text("hello there"), TextCommand::Message("hello there".to_string()));
    assert_eq!(parse_text(""), TextCommand::Message(String::new()));
}

#[test]
fn parse_reports_malformed_commands() {
    assert_eq!(parse_text("/join"), TextCommand::MissingRoom);
    assert_eq!(parse_text("/join "), TextCommand::MissingRoom);
    assert_eq!(parse_text("/name"), TextCommand::MissingName);
    assert_eq!(parse_text("/frob x"), TextCommand::Unknown("/frob x".to_string()));
    assert_eq!(parse_text("/"), TextCommand::Unknown("/".to_string()));
}

#[test]
fn text_join_updates_room_and_forwards() {
    let mut s = ChatSession::new(4, 0);
    assert_eq!(s.room(), "Main");
    let r = s.on_text::<u32>("/join lobby");
    assert!(r.reply.is_none());
    match r.forward {
        Some(ServerMessage::Join { id, name }) => {
            assert_eq!(id, 4);
            assert_eq!(name, "lobby");
        }
        _ => panic!("expected a join"),
    }
    assert_eq!(s.room(), "lobby");
    let r = s.on_text::<u32>("hi");
    assert_eq!(forward_text(&r.forward), (4, "hi".to_string(), "lobby".to_string()));
}

#[test]
fn text_name_prefixes_later_messages() {
    let mut s = ChatSession::new(1, 0);
    let r = s.on_text::<u32>("/name Ann");
    assert!(r.forward.is_none() && r.reply.is_none());
    assert_eq!(s.name(), Some(&"Ann".to_string()));
    let r = s.on_text::<u32>("hello");
    assert_eq!(forward_text(&r.forward), (1, "Ann: hello".to_string(), "Main".to_string()));
}

#[test]
fn text_errors_are_replied_to_sender_only() {
    let mut s = ChatSession::new(1, 0);
    let r = s.on_text::<u32>("/join");
    assert!(r.forward.is_none());
    assert_eq!(r.reply, Some("!!! room name is required".to_string()));
    let r = s.on_text::<u32>("/name");
    assert_eq!(r.reply, Some("!!! name is required".to_string()));
    let r = s.on_text::<u32>("/shout hey");
    assert!(r.forward.is_none());
    assert_eq!(r.reply, Some("!!! unknown command: /shout hey".to_string()));
    assert_eq!(s.room(), "Main");
}

#[test]
fn text_list_forwards_list_rooms() {
    let mut s = ChatSession::new(9, 0);
    let r = s.on_text::<u32>("/list");
    assert!(matches!(r.forward, Some(ServerMessage::ListRooms(9))));
}

#[test]
fn socket_requests() {
    let mut s = ChatSession::new(2, 100);
    let r = s.on_request::<u32>(ChatRequest::Join("games".to_string()), 150);
    assert_eq!(r.reply, Some(ChatResponse::Joined("games".to_string())));
    assert!(matches!(r.forward, Some(ServerMessage::Join { id: 2, .. })));
    let r = s.on_request::<u32>(ChatRequest::Name("Bo".to_string()), 150);
    assert!(r.forward.is_none() && r.reply.is_none());
    let r = s.on_request::<u32>(ChatRequest::Message("hey".to_string()), 150);
    assert_eq!(forward_text(&r.forward), (2, "Bo: hey".to_string(), "games".to_string()));
    let r = s.on_request::<u32>(ChatRequest::List, 150);
    assert!(matches!(r.forward, Some(ServerMessage::ListRooms(2))));
    let r = s.on_request::<u32>(ChatRequest::Ping, 4_000);
    assert!(r.forward.is_none());
    assert_eq!(r.reply, Some(ChatResponse::Ping));
    assert_eq!(s.heartbeat().last_seen_at(), 4_000);
}

#[test]
fn liveness_frames_keep_session_alive() {
    let mut s = ChatSession::new(3, 0);
    let mut now = 0;
    for _ in 0..10 {
        now += 5_000;
        s.on_liveness(now - 1_000);
        assert_eq!(s.on_tick(now), chat_relay::heartbeat::Tick::Probe);
    }
    s.on_probe_failed();
    assert!(!s.heartbeat().is_alive());
}

#[test]
fn farewell_names_the_session() {
    let s = ChatSession::new(11, 0);
    assert!(matches!(s.farewell::<u32>(), ServerMessage::Disconnect(11)));
    assert_eq!(s.id(), 11);
}

#[test]
fn coordinator_messages_to_wire() {
    assert_eq!(response_for(ClientMessage::Id(3)), None);
    assert_eq!(
        response_for(ClientMessage::Message("x".to_string())),
        Some(ChatResponse::Message("x".to_string()))
    );
    assert_eq!(
        response_for(ClientMessage::Rooms(vec!["a".to_string()])),
        Some(ChatResponse::Rooms(vec!["a".to_string()]))
    );
    assert!(text_frames(ClientMessage::Id(3)).is_empty());
    assert_eq!(text_frames(ClientMessage::Message("x".to_string())), vec!["x".to_string()]);
    assert_eq!(
        text_frames(ClientMessage::Rooms(vec!["a".to_string(), "b".to_string()])),
        vec!["a".to_string(), "b".to_string()]
    );
}
