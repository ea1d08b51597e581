use chat_relay::heartbeat::{Tick, CLIENT_TIMEOUT_MS, HEARTBEAT_INTERVAL_MS};
use chat_relay::relay::{ChatServer, ClientMessage, Outbound, ServerMessage};
use chat_relay::session::ChatSession;

fn text(s: &str) -> ClientMessage {
    ClientMessage::Message(s.to_string())
}

fn sorted(v: &[usize]) -> Vec<usize> {
    let mut v = v.to_vec();
    v.sort();
    v
}

fn connect(srv: &mut ChatServer<u32>, chan: u32) -> (usize, Vec<Outbound>) {
    srv.connect(chan).expect("ids left")
}

#[test]
fn new_server_has_only_main_room() {
    let srv: ChatServer<u32> = ChatServer::new();
    let out = srv.list_rooms(0);
    assert!(out.is_empty());
    let dflt: ChatServer<u32> = ChatServer::default();
    assert!(dflt.session(0).is_none());
}

#[test]
fn connect_assigns_fresh_ids_and_sends_id_back() {
    let mut srv: ChatServer<u32> = ChatServer::new();
    let (a, out) = connect(&mut srv, 7);
    assert_eq!(out.len(), 2);
    assert!(out[0].to.is_empty());
    assert_eq!(out[0].msg, text("Someone joined"));
    assert_eq!(out[1].to, vec![a]);
    assert_eq!(out[1].msg, ClientMessage::Id(a));
    let (b, _) = connect(&mut srv, 8);
    assert_ne!(a, b);
    assert_eq!(srv.session(a), Some(&7));
    assert_eq!(srv.session(b), Some(&8));
}

// Session A connects, then B: A hears of B, and B's "hello" reaches A only.
#[test]
fn scenario_connect_and_greet() {
    let mut srv: ChatServer<u32> = ChatServer::new();
    let (a, _) = connect(&mut srv, 1);
    let (b, out) = connect(&mut srv, 2);
    assert_eq!(out[0].to, vec![a]);
    assert_eq!(out[0].msg, text("Someone joined"));
    assert_eq!(out[1].to, vec![b]);
    let out = srv.handle(ServerMessage::Message { id: b, msg: "hello".to_string(), room: "Main".to_string() });
    assert_eq!(out.len(), 1);
    assert_eq!(out[0].to, vec![a]);
    assert_eq!(out[0].msg, text("hello"));
}

// A moves to "lobby": B, alone in Main, hears of it; A's message in the lobby
// reaches nobody.
#[test]
fn scenario_join_lobby() {
    let mut srv: ChatServer<u32> = ChatServer::new();
    let (a, _) = connect(&mut srv, 1);
    let (b, _) = connect(&mut srv, 2);
    let out = srv.handle(ServerMessage::Join { id: a, name: "lobby".to_string() });
    assert_eq!(out.len(), 2);
    assert_eq!(out[0].to, vec![b]);
    assert_eq!(out[0].msg, text("Someone disconnected"));
    assert!(out[1].to.is_empty());
    assert_eq!(out[1].msg, text("Someone connected"));
    let out = srv.handle(ServerMessage::Message { id: a, msg: "anyone?".to_string(), room: "lobby".to_string() });
    assert_eq!(out.len(), 1);
    assert!(out[0].to.is_empty());
    let out = srv.handle(ServerMessage::Message { id: b, msg: "hi".to_string(), room: "Main".to_string() });
    assert!(out[0].to.is_empty());
}

// A asks for the rooms after moving to the lobby: it alone gets both names.
#[test]
fn scenario_list_rooms() {
    let mut srv: ChatServer<u32> = ChatServer::new();
    let (a, _) = connect(&mut srv, 1);
    let (_b, _) = connect(&mut srv, 2);
    srv.handle(ServerMessage::Join { id: a, name: "lobby".to_string() });
    let out = srv.handle(ServerMessage::ListRooms(a));
    assert_eq!(out.len(), 1);
    assert_eq!(out[0].to, vec![a]);
    match &out[0].msg {
        ClientMessage::Rooms(names) => {
            let mut names = names.clone();
            names.sort();
            assert_eq!(names, vec!["Main".to_string(), "lobby".to_string()]);
        }
        other => panic!("unexpected {:?}", other),
    }
}

// A stops answering probes: its monitor closes the connection, the
// coordinator drops it and tells its room, and later messages miss it.
#[test]
fn scenario_heartbeat_timeout_evicts_session() {
    let mut srv: ChatServer<u32> = ChatServer::new();
    let (a, _) = connect(&mut srv, 1);
    let (b, _) = connect(&mut srv, 2);
    let (c, _) = connect(&mut srv, 3);
    let mut conn = ChatSession::new(a, 1_000);
    let mut now = 1_000;
    loop {
        now += HEARTBEAT_INTERVAL_MS;
        if conn.on_tick(now) == Tick::Close {
            break;
        }
    }
    assert!(now > 1_000 + CLIENT_TIMEOUT_MS);
    assert!(now <= 1_000 + CLIENT_TIMEOUT_MS + HEARTBEAT_INTERVAL_MS);
    let out = srv.handle(conn.farewell());
    assert_eq!(out.len(), 1);
    assert_eq!(sorted(&out[0].to), sorted(&[b, c]));
    assert_eq!(out[0].msg, text("Someone disconnected"));
    assert!(srv.session(a).is_none());
    let out = srv.handle(ServerMessage::Message { id: b, msg: "still here?".to_string(), room: "Main".to_string() });
    assert_eq!(out[0].to, vec![c]);
}

#[test]
fn disconnect_is_idempotent() {
    let mut srv: ChatServer<u32> = ChatServer::new();
    let (a, _) = connect(&mut srv, 1);
    let (b, _) = connect(&mut srv, 2);
    let out = srv.disconnect(a);
    assert_eq!(out.len(), 1);
    assert_eq!(out[0].to, vec![b]);
    assert!(srv.disconnect(a).is_empty());
    assert!(srv.disconnect(12345).is_empty());
    let out = srv.handle(ServerMessage::Message { id: b, msg: "x".to_string(), room: "Main".to_string() });
    assert!(out[0].to.is_empty());
}

#[test]
fn message_skips_sender_and_reaches_every_other_member() {
    let mut srv: ChatServer<u32> = ChatServer::new();
    let (a, _) = connect(&mut srv, 1);
    let (b, _) = connect(&mut srv, 2);
    let (c, _) = connect(&mut srv, 3);
    let out = srv.send_message(&"Main".to_string(), &"yo".to_string(), Some(b));
    assert_eq!(sorted(&out[0].to), sorted(&[a, c]));
    let out = srv.send_message(&"Main".to_string(), &"all".to_string(), None);
    assert_eq!(sorted(&out[0].to), sorted(&[a, b, c]));
}

#[test]
fn message_to_missing_room_reaches_nobody() {
    let mut srv: ChatServer<u32> = ChatServer::new();
    let (a, _) = connect(&mut srv, 1);
    let out = srv.handle(ServerMessage::Message { id: a, msg: "x".to_string(), room: "nowhere".to_string() });
    assert_eq!(out.len(), 1);
    assert!(out[0].to.is_empty());
    assert_eq!(out[0].msg, text("x"));
}

#[test]
fn session_that_left_a_room_misses_its_messages() {
    let mut srv: ChatServer<u32> = ChatServer::new();
    let (a, _) = connect(&mut srv, 1);
    let (b, _) = connect(&mut srv, 2);
    let (c, _) = connect(&mut srv, 3);
    srv.join(c, "lobby".to_string());
    let out = srv.handle(ServerMessage::Message { id: a, msg: "m".to_string(), room: "Main".to_string() });
    assert_eq!(out[0].to, vec![b]);
    let out = srv.handle(ServerMessage::Message { id: a, msg: "m".to_string(), room: "lobby".to_string() });
    assert_eq!(out[0].to, vec![c]);
}

#[test]
fn join_existing_room_notifies_its_members_but_not_the_joiner() {
    let mut srv: ChatServer<u32> = ChatServer::new();
    let (a, _) = connect(&mut srv, 1);
    let (b, _) = connect(&mut srv, 2);
    let (c, _) = connect(&mut srv, 3);
    srv.join(a, "lobby".to_string());
    let out = srv.join(b, "lobby".to_string());
    assert_eq!(out[0].to, vec![c]);
    assert_eq!(out[1].to, vec![a]);
    assert_eq!(out[1].msg, text("Someone connected"));
    // joining the room one is in leaves and re-enters it
    let out = srv.join(b, "lobby".to_string());
    assert_eq!(out[0].to, vec![a]);
    assert_eq!(out[1].to, vec![a]);
    let out = srv.list_rooms(b);
    assert_eq!(out[0].msg, ClientMessage::Rooms(vec!["Main".to_string(), "lobby".to_string()]));
}

#[test]
fn unknown_session_cannot_join_or_list() {
    let mut srv: ChatServer<u32> = ChatServer::new();
    assert!(srv.join(99, "lobby".to_string()).is_empty());
    assert!(srv.list_rooms(99).is_empty());
    let (a, _) = connect(&mut srv, 1);
    let out = srv.list_rooms(a);
    assert_eq!(out[0].msg, ClientMessage::Rooms(vec!["Main".to_string()]));
}

#[test]
fn room_names_are_case_sensitive() {
    let mut srv: ChatServer<u32> = ChatServer::new();
    let (a, _) = connect(&mut srv, 1);
    srv.join(a, "main".to_string());
    let out = srv.list_rooms(a);
    assert_eq!(out[0].msg, ClientMessage::Rooms(vec!["Main".to_string(), "main".to_string()]));
}
