//! Per-connection logic shared by both front-ends.
//!
//! A `ChatSession` is what one connection knows about itself: its session id,
//! the room it believes it is in, its display name and its heartbeat. Each
//! incoming frame is turned into at most one command for the coordinator and
//! at most one reply for the peer.
use crate::codec::{ChatRequest, ChatResponse, RequestView, ResponseView};
use crate::heartbeat::{expired, Heartbeat, Tick};
use crate::relay::{main_room, texts, ClientMessage, CommandView, MessageView, ServerMessage};
use vstd::prelude::*;
use vstd::string::*;

verus! {

/// A line typed by a peer of the message front-end, read as a command.
#[derive(Debug, PartialEq, Eq)]
pub enum TextCommand {
    /// `/list`
    List,
    /// `/join <room>`
    Join(String),
    /// `/name <name>`
    Name(String),
    /// Anything that does not start with `/`.
    Message(String),
    /// `/join` without a room name.
    MissingRoom,
    /// `/name` without a name.
    MissingName,
    /// Any other line that starts with `/`; holds the whole line.
    Unknown(String),
}

/// Mathematical value of a `TextCommand`.
pub enum TextCommandView {
    List,
    Join(Seq<char>),
    Name(Seq<char>),
    Message(Seq<char>),
    MissingRoom,
    MissingName,
    Unknown(Seq<char>),
}

impl View for TextCommand {
    type V = TextCommandView;

    open spec fn view(&self) -> TextCommandView {
        match self {
            TextCommand::List => TextCommandView::List,
            TextCommand::Join(s) => TextCommandView::Join(s@),
            TextCommand::Name(s) => TextCommandView::Name(s@),
            TextCommand::Message(s) => TextCommandView::Message(s@),
            TextCommand::MissingRoom => TextCommandView::MissingRoom,
            TextCommand::MissingName => TextCommandView::MissingName,
            TextCommand::Unknown(s) => TextCommandView::Unknown(s@),
        }
    }
}

/// Index of the first space in `s`, or its length if it has none.
pub open spec fn first_space(s: Seq<char>) -> nat
    decreases s.len(),
{
    if s.len() == 0 || s[0] == ' ' {
        0
    } else {
        1 + first_space(s.drop_first())
    }
}

/// The command word of a line: everything before the first space.
pub open spec fn command_word(s: Seq<char>) -> Seq<char> {
    s.take(first_space(s) as int)
}

/// The argument of a line: everything after the first space; empty if there
/// is no space.
pub open spec fn argument(s: Seq<char>) -> Seq<char> {
    if first_space(s) < s.len() {
        s.skip(first_space(s) + 1int)
    } else {
        Seq::empty()
    }
}

/// How a line typed by a peer reads.
pub open spec fn command_of(s: Seq<char>) -> TextCommandView {
    if s.len() == 0 || s[0] != '/' {
        TextCommandView::Message(s)
    } else if command_word(s) == "/list"@ {
        TextCommandView::List
    } else if command_word(s) == "/join"@ {
        if argument(s).len() > 0 {
            TextCommandView::Join(argument(s))
        } else {
            TextCommandView::MissingRoom
        }
    } else if command_word(s) == "/name"@ {
        if argument(s).len() > 0 {
            TextCommandView::Name(argument(s))
        } else {
            TextCommandView::MissingName
        }
    } else {
        TextCommandView::Unknown(s)
    }
}

proof fn lemma_first_space(s: Seq<char>, k: int)
    requires
        0 <= k <= s.len(),
        forall|j: int| 0 <= j < k ==> s[j] != ' ',
        k == s.len() || s[k] == ' ',
    ensures
        first_space(s) == k,
    decreases k,
{
    if k > 0 {
        lemma_first_space(s.drop_first(), k - 1);
    }
}

/// Reads a line typed by a peer.
pub fn parse_text(m: &str) -> (r: TextCommand)
    ensures
        r@ == command_of(m@),
{
    let len = m.unicode_len();
    if len == 0 || m.get_char(0) != '/' {
        return TextCommand::Message(m.to_owned());
    }
    let mut k: usize = 0;
    while k < len && m.get_char(k) != ' '
        invariant
            k <= len,
            len == m@.len(),
            forall|j: int| 0 <= j < k ==> m@[j] != ' ',
        decreases len - k,
    {
        k += 1;
    }
    proof {
        lemma_first_space(m@, k as int);
    }
    let word = m.substring_char(0, k).to_owned();
    let arg = if k < len {
        m.substring_char(k + 1, len).to_owned()
    } else {
        String::new()
    };
    assert(word@ == command_word(m@));
    assert(arg@ == argument(m@));
    if word == "/list".to_owned() {
        TextCommand::List
    } else if word == "/join".to_owned() {
        if arg.unicode_len() > 0 {
            TextCommand::Join(arg)
        } else {
            TextCommand::MissingRoom
        }
    } else if word == "/name".to_owned() {
        if arg.unicode_len() > 0 {
            TextCommand::Name(arg)
        } else {
            TextCommand::MissingName
        }
    } else {
        TextCommand::Unknown(m.to_owned())
    }
}

/// The text a message is broadcast with: prefixed by the sender's display
/// name, if it has one.
pub open spec fn labelled(name: Option<Seq<char>>, text: Seq<char>) -> Seq<char> {
    match name {
        Some(n) => n + ": "@ + text,
        None => text,
    }
}

/// The value behind an optional value.
pub open spec fn viewed<T: View>(o: Option<T>) -> Option<T::V> {
    match o {
        Some(x) => Some(x@),
        None => None,
    }
}

/// What a frame leads to: a command for the coordinator, a reply for the
/// peer, both or neither.
pub struct Reaction<S, R> {
    pub forward: Option<ServerMessage<S>>,
    pub reply: Option<R>,
}

/// Mathematical value of a `ChatSession`.
pub struct SessionView {
    pub id: usize,
    pub room: Seq<char>,
    pub name: Option<Seq<char>>,
    pub heartbeat: Heartbeat,
}

/// What one connection knows about itself.
pub struct ChatSession {
    id: usize,
    heartbeat: Heartbeat,
    room: String,
    name: Option<String>,
}

impl View for ChatSession {
    type V = SessionView;

    closed spec fn view(&self) -> SessionView {
        SessionView { id: self.id, room: self.room@, name: viewed(self.name), heartbeat: self.heartbeat }
    }
}

impl ChatSession {
    /// A connection registered as session `id` at time `now`: in the main room,
    /// without a display name.
    pub fn new(id: usize, now: u64) -> (r: ChatSession)
        ensures
            r@.id == id,
            r@.room == main_room(),
            r@.name.is_none(),
            r@.heartbeat.last_seen() == now,
            !r@.heartbeat.timed_out(),
    {
        ChatSession { id, heartbeat: Heartbeat::new(now), room: "Main".to_owned(), name: None }
    }

    pub fn id(&self) -> (r: usize)
        ensures
            r == self@.id,
    {
        self.id
    }

    /// The room this connection last asked to join.
    pub fn room(&self) -> (r: &String)
        ensures
            r@ == self@.room,
    {
        &self.room
    }

    pub fn name(&self) -> (r: Option<&String>)
        ensures
            viewed(r) == self@.name,
    {
        match &self.name {
            Some(n) => Some(n),
            None => None,
        }
    }

    pub fn heartbeat(&self) -> (r: Heartbeat)
        ensures
            r == self@.heartbeat,
    {
        self.heartbeat
    }

    /// The text to broadcast for a line `text` typed by this peer.
    fn label(&self, text: &str) -> (r: String)
        ensures
            r@ == labelled(self@.name, text@),
    {
        match &self.name {
            Some(n) => {
                let mut t = n.clone();
                t.append(": ");
                t.append(text);
                t
            },
            None => text.to_owned(),
        }
    }

    /// Handles a text frame of the message front-end.
    pub fn on_text<S>(&mut self, text: &str) -> (r: Reaction<S, String>)
        ensures
            final(self)@.id == old(self)@.id,
            final(self)@.heartbeat == old(self)@.heartbeat,
            match command_of(text@) {
                TextCommandView::List => {
                    &&& final(self)@ == old(self)@
                    &&& viewed(r.forward) == Some(CommandView::ListRooms(old(self)@.id))
                    &&& r.reply.is_none()
                },
                TextCommandView::Join(room) => {
                    &&& final(self)@ == SessionView { room, ..old(self)@ }
                    &&& viewed(r.forward) == Some(CommandView::Join { id: old(self)@.id, name: room })
                    &&& r.reply.is_none()
                },
                TextCommandView::Name(name) => {
                    &&& final(self)@ == SessionView { name: Some(name), ..old(self)@ }
                    &&& r.forward.is_none()
                    &&& r.reply.is_none()
                },
                TextCommandView::Message(line) => {
                    &&& final(self)@ == old(self)@
                    &&& viewed(r.forward) == Some(
                        CommandView::Message {
                            id: old(self)@.id,
                            msg: labelled(old(self)@.name, line),
                            room: old(self)@.room,
                        },
                    )
                    &&& r.reply.is_none()
                },
                TextCommandView::MissingRoom => {
                    &&& final(self)@ == old(self)@
                    &&& r.forward.is_none()
                    &&& viewed(r.reply) == Some("!!! room name is required"@)
                },
                TextCommandView::MissingName => {
                    &&& final(self)@ == old(self)@
                    &&& r.forward.is_none()
                    &&& viewed(r.reply) == Some("!!! name is required"@)
                },
                TextCommandView::Unknown(line) => {
                    &&& final(self)@ == old(self)@
                    &&& r.forward.is_none()
                    &&& viewed(r.reply) == Some("!!! unknown command: "@ + line)
                },
            },
    {
        match parse_text(text) {
            TextCommand::List => Reaction { forward: Some(ServerMessage::ListRooms(self.id)), reply: None },
            TextCommand::Join(room) => {
                self.room = room.clone();
                Reaction { forward: Some(ServerMessage::Join { id: self.id, name: room }), reply: None }
            },
            TextCommand::Name(name) => {
                self.name = Some(name);
                Reaction { forward: None, reply: None }
            },
            TextCommand::Message(line) => {
                let msg = self.label(line.as_str());
                Reaction {
                    forward: Some(ServerMessage::Message { id: self.id, msg, room: self.room.clone() }),
                    reply: None,
                }
            },
            TextCommand::MissingRoom => Reaction {
                forward: None,
                reply: Some("!!! room name is required".to_owned()),
            },
            TextCommand::MissingName => Reaction {
                forward: None,
                reply: Some("!!! name is required".to_owned()),
            },
            TextCommand::Unknown(line) => {
                let mut reply = "!!! unknown command: ".to_owned();
                reply.append(line.as_str());
                Reaction { forward: None, reply: Some(reply) }
            },
        }
    }

    /// Handles a request of the socket front-end received at time `now`.
    pub fn on_request<S>(&mut self, req: ChatRequest, now: u64) -> (r: Reaction<S, ChatResponse>)
        ensures
            final(self)@.id == old(self)@.id,
            match req@ {
                RequestView::List => {
                    &&& final(self)@ == old(self)@
                    &&& viewed(r.forward) == Some(CommandView::ListRooms(old(self)@.id))
                    &&& r.reply.is_none()
                },
                RequestView::Join(room) => {
                    &&& final(self)@ == SessionView { room, ..old(self)@ }
                    &&& viewed(r.forward) == Some(CommandView::Join { id: old(self)@.id, name: room })
                    &&& viewed(r.reply) == Some(ResponseView::Joined(room))
                },
                RequestView::Name(name) => {
                    &&& final(self)@ == SessionView { name: Some(name), ..old(self)@ }
                    &&& r.forward.is_none()
                    &&& r.reply.is_none()
                },
                RequestView::Message(line) => {
                    &&& final(self)@ == old(self)@
                    &&& viewed(r.forward) == Some(
                        CommandView::Message {
                            id: old(self)@.id,
                            msg: labelled(old(self)@.name, line),
                            room: old(self)@.room,
                        },
                    )
                    &&& r.reply.is_none()
                },
                RequestView::Ping => {
                    &&& final(self)@.room == old(self)@.room
                    &&& final(self)@.name == old(self)@.name
                    &&& final(self)@.heartbeat.timed_out() == old(self)@.heartbeat.timed_out()
                    &&& !old(self)@.heartbeat.timed_out() ==> final(self)@.heartbeat.last_seen()
                        == if now > old(self)@.heartbeat.last_seen() {
                        now as nat
                    } else {
                        old(self)@.heartbeat.last_seen()
                    }
                    &&& r.forward.is_none()
                    &&& viewed(r.reply) == Some(ResponseView::Ping)
                },
            },
    {
        match req {
            ChatRequest::List => Reaction { forward: Some(ServerMessage::ListRooms(self.id)), reply: None },
            ChatRequest::Join(room) => {
                self.room = room.clone();
                let ack = ChatResponse::Joined(room.clone());
                Reaction { forward: Some(ServerMessage::Join { id: self.id, name: room }), reply: Some(ack) }
            },
            ChatRequest::Name(name) => {
                self.name = Some(name);
                Reaction { forward: None, reply: None }
            },
            ChatRequest::Message(line) => {
                let msg = self.label(line.as_str());
                Reaction {
                    forward: Some(ServerMessage::Message { id: self.id, msg, room: self.room.clone() }),
                    reply: None,
                }
            },
            ChatRequest::Ping => {
                self.heartbeat.beat(now);
                Reaction { forward: None, reply: Some(ChatResponse::Ping) }
            },
        }
    }

    /// Records a liveness frame (a ping or a pong) received at time `now`.
    pub fn on_liveness(&mut self, now: u64)
        ensures
            final(self)@.id == old(self)@.id,
            final(self)@.room == old(self)@.room,
            final(self)@.name == old(self)@.name,
            final(self)@.heartbeat.timed_out() == old(self)@.heartbeat.timed_out(),
            !old(self)@.heartbeat.timed_out() ==> final(self)@.heartbeat.last_seen() == if now
                > old(self)@.heartbeat.last_seen() {
                now as nat
            } else {
                old(self)@.heartbeat.last_seen()
            },
    {
        self.heartbeat.beat(now);
    }

    /// A wake-up of the heartbeat monitor at time `now`.
    pub fn on_tick(&mut self, now: u64) -> (r: Tick)
        ensures
            final(self)@.id == old(self)@.id,
            final(self)@.room == old(self)@.room,
            final(self)@.name == old(self)@.name,
            final(self)@.heartbeat.last_seen() == old(self)@.heartbeat.last_seen(),
            r == Tick::Close <==> (old(self)@.heartbeat.timed_out() || expired(
                old(self)@.heartbeat.last_seen() as int,
                now as int,
            )),
            final(self)@.heartbeat.timed_out() <==> r == Tick::Close,
    {
        self.heartbeat.tick(now)
    }

    /// A probe could not be sent: the connection is gone.
    pub fn on_probe_failed(&mut self)
        ensures
            final(self)@.id == old(self)@.id,
            final(self)@.room == old(self)@.room,
            final(self)@.name == old(self)@.name,
            final(self)@.heartbeat.timed_out(),
    {
        self.heartbeat.probe_failed();
    }

    /// The command that tells the coordinator this connection is gone.
    pub fn farewell<S>(&self) -> (r: ServerMessage<S>)
        ensures
            r@ == CommandView::Disconnect(self@.id),
    {
        ServerMessage::Disconnect(self.id)
    }
}

/// The socket response that carries a message of the coordinator; none for
/// the id it hands out at registration.
pub fn response_for(msg: ClientMessage) -> (r: Option<ChatResponse>)
    ensures
        match msg@ {
            MessageView::Id(_) => r.is_none(),
            MessageView::Text(t) => viewed(r) == Some(ResponseView::Message(t)),
            MessageView::Rooms(names) => viewed(r) == Some(ResponseView::Rooms(names)),
        },
{
    match msg {
        ClientMessage::Id(_) => None,
        ClientMessage::Message(text) => Some(ChatResponse::Message(text)),
        ClientMessage::Rooms(rooms) => Some(ChatResponse::Rooms(rooms)),
    }
}

/// The text frames that carry a message of the coordinator on the message
/// front-end: one per room name for a room list, none for the id.
pub fn text_frames(msg: ClientMessage) -> (r: Vec<String>)
    ensures
        match msg@ {
            MessageView::Id(_) => r@.len() == 0,
            MessageView::Text(t) => texts(r@) == seq![t],
            MessageView::Rooms(names) => texts(r@) == names,
        },
{
    match msg {
        ClientMessage::Id(_) => Vec::new(),
        ClientMessage::Message(text) => {
            let mut v: Vec<String> = Vec::new();
            v.push(text);
            assert(texts(v@) =~= seq![v@[0]@]);
            v
        },
        ClientMessage::Rooms(rooms) => rooms,
    }
}

} // verus!
