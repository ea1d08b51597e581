//! The relay coordinator: the one owner of sessions and rooms.
//!
//! Every change to shared chat state goes through `ChatServer`, one command at
//! a time. A command returns the messages it wants delivered as a list of
//! `Outbound` values; the caller hands each one to the outbound channels of its
//! recipients, which the coordinator keeps in its session map.
use std::collections::HashMap;
use vstd::prelude::*;

verus! {

broadcast use {vstd::std_specs::hash::group_hash_axioms, vstd::seq_lib::group_seq_properties};

/// Name of the room that exists from the start and that new sessions join.
pub open spec fn main_room() -> Seq<char> {
    "Main"@
}

/// Text sent to the members of the main room when a session connects.
pub open spec fn joined_text() -> Seq<char> {
    "Someone joined"@
}

/// Text sent to the members left behind when a session leaves a room.
pub open spec fn disconnected_text() -> Seq<char> {
    "Someone disconnected"@
}

/// Text sent to the other members of a room that a session joins.
pub open spec fn connected_text() -> Seq<char> {
    "Someone connected"@
}

/// What the coordinator sends to a session.
#[derive(Debug, Clone, PartialEq, Eq)]
pub enum ClientMessage {
    /// The id assigned to a newly connected session.
    Id(usize),
    /// A chat line or a notice.
    Message(String),
    /// The names of all rooms.
    Rooms(Vec<String>),
}

/// Mathematical value of a `ClientMessage`.
pub enum MessageView {
    Id(usize),
    Text(Seq<char>),
    Rooms(Seq<Seq<char>>),
}

/// The names behind a list of strings.
pub open spec fn texts(v: Seq<String>) -> Seq<Seq<char>> {
    v.map_values(|s: String| s@)
}

impl View for ClientMessage {
    type V = MessageView;

    open spec fn view(&self) -> MessageView {
        match self {
            ClientMessage::Id(id) => MessageView::Id(*id),
            ClientMessage::Message(text) => MessageView::Text(text@),
            ClientMessage::Rooms(rooms) => MessageView::Rooms(texts(rooms@)),
        }
    }
}

/// A message for one or more sessions, named by id.
#[derive(Debug, PartialEq, Eq)]
pub struct Outbound {
    pub to: Vec<usize>,
    pub msg: ClientMessage,
}

/// `o` goes, once each, to exactly the sessions in `to`, and carries `msg`.
pub open spec fn addressed(o: Outbound, to: Set<usize>, msg: MessageView) -> bool {
    &&& o.to@.no_duplicates()
    &&& o.to@.to_set() == to
    &&& o.msg@ == msg
}

/// A command for the coordinator. `S` is the outbound channel of a session.
pub enum ServerMessage<S> {
    /// A new session with its outbound channel.
    Connect(S),
    /// A session is gone.
    Disconnect(usize),
    /// Send `msg` from session `id` to the other members of `room`.
    Message { id: usize, msg: String, room: String },
    /// Session `id` asks for the room names.
    ListRooms(usize),
    /// Session `id` moves to the room `name`, which is made if absent.
    Join { id: usize, name: String },
}

/// Mathematical value of a `ServerMessage`, without the channel a connect
/// carries.
pub enum CommandView {
    Connect,
    Disconnect(usize),
    Message { id: usize, msg: Seq<char>, room: Seq<char> },
    ListRooms(usize),
    Join { id: usize, name: Seq<char> },
}

impl<S> View for ServerMessage<S> {
    type V = CommandView;

    open spec fn view(&self) -> CommandView {
        match self {
            ServerMessage::Connect(_) => CommandView::Connect,
            ServerMessage::Disconnect(id) => CommandView::Disconnect(*id),
            ServerMessage::Message { id, msg, room } => CommandView::Message { id: *id, msg: msg@, room: room@ },
            ServerMessage::ListRooms(id) => CommandView::ListRooms(*id),
            ServerMessage::Join { id, name } => CommandView::Join { id: *id, name: name@ },
        }
    }
}

/// Mathematical value of a room: its name and its members.
#[verifier::ext_equal]
pub struct RoomModel {
    pub name: Seq<char>,
    pub members: Set<usize>,
}

/// Mathematical value of the coordinator.
#[verifier::ext_equal]
pub struct RelayModel<S> {
    /// Each session's outbound channel, by session id.
    pub sessions: Map<usize, S>,
    /// The rooms, in order of creation.
    pub rooms: Seq<RoomModel>,
    /// The id the next session will get.
    pub next_id: usize,
}

impl<S> RelayModel<S> {
    /// Whether some room is called `name`.
    pub open spec fn has_room(self, name: Seq<char>) -> bool {
        exists|i: int| 0 <= i < self.rooms.len() && #[trigger] self.rooms[i].name == name
    }

    /// The members of the room called `name`; empty if there is none.
    pub open spec fn members_of(self, name: Seq<char>) -> Set<usize> {
        Set::new(
            |x: usize|
                exists|i: int|
                    0 <= i < self.rooms.len() && #[trigger] self.rooms[i].name == name
                        && self.rooms[i].members.contains(x),
        )
    }

    /// The other members of the room that session `id` is in.
    pub open spec fn room_mates(self, id: usize) -> Set<usize> {
        Set::new(
            |x: usize|
                x != id && exists|i: int|
                    0 <= i < self.rooms.len() && #[trigger] self.rooms[i].members.contains(id)
                        && self.rooms[i].members.contains(x),
        )
    }

    /// The room names, in order of creation.
    pub open spec fn room_names(self) -> Seq<Seq<char>> {
        self.rooms.map_values(|r: RoomModel| r.name)
    }

    /// Every id in a room belongs to a registered session.
    pub open spec fn members_are_sessions(self) -> bool {
        forall|i: int, x: usize|
            0 <= i < self.rooms.len() && #[trigger] self.rooms[i].members.contains(x)
                ==> self.sessions.contains_key(x)
    }

    /// No session is in two rooms.
    pub open spec fn rooms_disjoint(self) -> bool {
        forall|i: int, j: int, x: usize|
            0 <= i < self.rooms.len() && 0 <= j < self.rooms.len() && i != j
                && #[trigger] self.rooms[i].members.contains(x)
                ==> !(#[trigger] self.rooms[j].members.contains(x))
    }

    /// Every session is in some room.
    pub open spec fn sessions_placed(self) -> bool {
        forall|x: usize|
            #[trigger] self.sessions.contains_key(x) ==> exists|i: int|
                0 <= i < self.rooms.len() && #[trigger] self.rooms[i].members.contains(x)
    }

    /// No two rooms share a name.
    pub open spec fn names_unique(self) -> bool {
        forall|i: int, j: int|
            0 <= i < self.rooms.len() && 0 <= j < self.rooms.len() && i != j
                ==> #[trigger] self.rooms[i].name != #[trigger] self.rooms[j].name
    }

    /// The invariants of the coordinator: the main room comes first, names
    /// are unique, every member is a session, every session is in exactly one
    /// room, and every id in use is below the next one to hand out.
    pub open spec fn wf(self) -> bool {
        &&& self.rooms.len() > 0
        &&& self.rooms[0].name == main_room()
        &&& self.names_unique()
        &&& self.members_are_sessions()
        &&& self.rooms_disjoint()
        &&& self.sessions_placed()
        &&& forall|x: usize| #[trigger] self.sessions.contains_key(x) ==> x < self.next_id
    }

    /// The state after session `next_id` connects with channel `s`.
    pub open spec fn connected(self, s: S) -> RelayModel<S> {
        RelayModel {
            sessions: self.sessions.insert(self.next_id, s),
            rooms: self.rooms.update(
                0,
                RoomModel {
                    name: self.rooms[0].name,
                    members: self.rooms[0].members.insert(self.next_id),
                },
            ),
            next_id: (self.next_id + 1) as usize,
        }
    }

    /// The rooms with `id` taken out of each.
    pub open spec fn rooms_without(self, id: usize) -> Seq<RoomModel> {
        self.rooms.map_values(|r: RoomModel| RoomModel { name: r.name, members: r.members.remove(id) })
    }

    /// The state after session `id` disconnects; unchanged for an unknown id.
    pub open spec fn disconnected(self, id: usize) -> RelayModel<S> {
        if self.sessions.contains_key(id) {
            RelayModel {
                sessions: self.sessions.remove(id),
                rooms: self.rooms_without(id),
                next_id: self.next_id,
            }
        } else {
            self
        }
    }

    /// The state after session `id` joins room `name`; unchanged for an
    /// unknown id.
    pub open spec fn joined(self, id: usize, name: Seq<char>) -> RelayModel<S> {
        if !self.sessions.contains_key(id) {
            self
        } else if self.has_room(name) {
            RelayModel {
                rooms: self.rooms.map_values(
                    |r: RoomModel|
                        RoomModel {
                            name: r.name,
                            members: if r.name == name {
                                r.members.insert(id)
                            } else {
                                r.members.remove(id)
                            },
                        },
                ),
                ..self
            }
        } else {
            RelayModel {
                rooms: self.rooms_without(id).push(RoomModel { name, members: set![id] }),
                ..self
            }
        }
    }
    /// The state after command `c`, with `s` as the channel a connect
    /// registers. Commands that only send leave the state as it is.
    pub open spec fn after(self, c: CommandView, s: S) -> RelayModel<S> {
        match c {
            CommandView::Connect => if self.next_id < usize::MAX {
                self.connected(s)
            } else {
                self
            },
            CommandView::Disconnect(id) => self.disconnected(id),
            CommandView::Join { id, name } => self.joined(id, name),
            _ => self,
        }
    }

    /// The state after a run of commands, each with the channel a connect
    /// would register.
    pub open spec fn after_all(self, run: Seq<(CommandView, S)>) -> RelayModel<S>
        decreases run.len(),
    {
        if run.len() == 0 {
            self
        } else {
            self.after_all(run.drop_last()).after(run.last().0, run.last().1)
        }
    }
}

/// With unique names, the members of the room called like room `j` are room
/// `j`'s members.
proof fn lemma_members_of_room<S>(m: RelayModel<S>, j: int)
    requires
        m.names_unique(),
        0 <= j < m.rooms.len(),
    ensures
        m.members_of(m.rooms[j].name) == m.rooms[j].members,
{
    assert(m.members_of(m.rooms[j].name) =~= m.rooms[j].members);
}

/// With no room missing `name`, nobody is a member of it.
proof fn lemma_members_of_absent<S>(m: RelayModel<S>, name: Seq<char>)
    requires
        !m.has_room(name),
    ensures
        m.members_of(name) == Set::<usize>::empty(),
{
    assert(m.members_of(name) =~= Set::<usize>::empty());
}

/// The room mates of a session are the other members of its room.
proof fn lemma_room_mates<S>(m: RelayModel<S>, id: usize, k: int)
    requires
        m.rooms_disjoint(),
        0 <= k < m.rooms.len(),
        m.rooms[k].members.contains(id),
    ensures
        m.room_mates(id) == m.rooms[k].members.remove(id),
{
    assert(m.room_mates(id) =~= m.rooms[k].members.remove(id));
}

/// Connecting a session keeps every invariant of the coordinator.
pub proof fn lemma_connect_keeps_invariants<S>(m: RelayModel<S>, s: S)
    requires
        m.wf(),
        m.next_id < usize::MAX,
    ensures
        m.connected(s).wf(),
{
    let n = m.connected(s);
    let id = m.next_id;
    assert forall|i: int, x: usize|
        0 <= i < n.rooms.len() && #[trigger] n.rooms[i].members.contains(x) implies n.sessions.contains_key(x) by {
        if x != id {
            assert(m.rooms[i].members.contains(x));
        }
    }
    assert forall|i: int, j: int, x: usize|
        0 <= i < n.rooms.len() && 0 <= j < n.rooms.len() && i != j
            && #[trigger] n.rooms[i].members.contains(x) implies !(#[trigger] n.rooms[j].members.contains(x)) by {
        if x == id {
            if i != 0 {
                assert(m.rooms[i].members.contains(x));
            } else {
                assert(!m.rooms[j].members.contains(x));
            }
        } else {
            assert(m.rooms[i].members.contains(x));
        }
    }
    assert forall|x: usize| #[trigger] n.sessions.contains_key(x) implies exists|i: int|
        0 <= i < n.rooms.len() && #[trigger] n.rooms[i].members.contains(x) by {
        if x == id {
            assert(n.rooms[0].members.contains(x));
        } else {
            let i = choose|i: int| 0 <= i < m.rooms.len() && #[trigger] m.rooms[i].members.contains(x);
            assert(n.rooms[i].members.contains(x));
        }
    }
}

/// Disconnecting a session, known or not, keeps every invariant.
pub proof fn lemma_disconnect_keeps_invariants<S>(m: RelayModel<S>, id: usize)
    requires
        m.wf(),
    ensures
        m.disconnected(id).wf(),
{
    let n = m.disconnected(id);
    if m.sessions.contains_key(id) {
        assert forall|i: int, x: usize|
            0 <= i < n.rooms.len() && #[trigger] n.rooms[i].members.contains(x) implies n.sessions.contains_key(x) by {
            assert(m.rooms[i].members.contains(x));
        }
        assert forall|i: int, j: int, x: usize|
            0 <= i < n.rooms.len() && 0 <= j < n.rooms.len() && i != j
                && #[trigger] n.rooms[i].members.contains(x) implies !(#[trigger] n.rooms[j].members.contains(x)) by {
            assert(m.rooms[i].members.contains(x));
        }
        assert forall|x: usize| #[trigger] n.sessions.contains_key(x) implies exists|i: int|
            0 <= i < n.rooms.len() && #[trigger] n.rooms[i].members.contains(x) by {
            let i = choose|i: int| 0 <= i < m.rooms.len() && #[trigger] m.rooms[i].members.contains(x);
            assert(n.rooms[i].members.contains(x));
        }
    }
}

/// Moving a session to a room, existing or new, keeps every invariant; in
/// particular the session is then in exactly one room.
pub proof fn lemma_join_keeps_invariants<S>(m: RelayModel<S>, id: usize, name: Seq<char>)
    requires
        m.wf(),
    ensures
        m.joined(id, name).wf(),
{
    let n = m.joined(id, name);
    if m.sessions.contains_key(id) {
        assert forall|i: int, x: usize|
            0 <= i < n.rooms.len() && #[trigger] n.rooms[i].members.contains(x) implies n.sessions.contains_key(x) by {
            if x != id {
                assert(m.rooms[i].members.contains(x));
            }
        }
        assert forall|i: int, j: int, x: usize|
            0 <= i < n.rooms.len() && 0 <= j < n.rooms.len() && i != j
                && #[trigger] n.rooms[i].members.contains(x) implies !(#[trigger] n.rooms[j].members.contains(x)) by {
            if x == id {
                assert(n.rooms[i].name == name);
                if j < m.rooms.len() && i < m.rooms.len() {
                    assert(m.rooms[i].name != m.rooms[j].name);
                }
            } else {
                assert(m.rooms[i].members.contains(x));
                if j < m.rooms.len() {
                    assert(!m.rooms[j].members.contains(x));
                }
            }
        }
        assert forall|x: usize| #[trigger] n.sessions.contains_key(x) implies exists|i: int|
            0 <= i < n.rooms.len() && #[trigger] n.rooms[i].members.contains(x) by {
            if x == id {
                if m.has_room(name) {
                    let i = choose|i: int| 0 <= i < m.rooms.len() && #[trigger] m.rooms[i].name == name;
                    assert(n.rooms[i].members.contains(x));
                } else {
                    assert(n.rooms[m.rooms.len() as int].members.contains(x));
                }
            } else {
                let i = choose|i: int| 0 <= i < m.rooms.len() && #[trigger] m.rooms[i].members.contains(x);
                assert(n.rooms[i].members.contains(x));
            }
        }
        assert forall|i: int, j: int|
            0 <= i < n.rooms.len() && 0 <= j < n.rooms.len() && i != j
                implies #[trigger] n.rooms[i].name != #[trigger] n.rooms[j].name by {
            if i == m.rooms.len() {
                assert(m.rooms[j].name == n.rooms[j].name);
            } else if j == m.rooms.len() {
                assert(m.rooms[i].name == n.rooms[i].name);
            } else {
                assert(m.rooms[i].name != m.rooms[j].name);
            }
        }
    }
}

/// Whatever run of commands the coordinator processes, its invariants hold
/// after every one of them: every room member is a registered session, and
/// every session is in exactly one room.
pub proof fn lemma_runs_keep_invariants<S>(m: RelayModel<S>, run: Seq<(CommandView, S)>)
    requires
        m.wf(),
    ensures
        m.after_all(run).wf(),
        forall|k: int| 0 <= k <= run.len() ==> (#[trigger] m.after_all(run.take(k))).wf(),
    decreases run.len(),
{
    if run.len() > 0 {
        let prefix = run.drop_last();
        lemma_runs_keep_invariants(m, prefix);
        let before = m.after_all(prefix);
        let (c, s) = run.last();
        match c {
            CommandView::Connect => if before.next_id < usize::MAX {
                lemma_connect_keeps_invariants(before, s);
            },
            CommandView::Disconnect(id) => lemma_disconnect_keeps_invariants(before, id),
            CommandView::Join { id, name } => lemma_join_keeps_invariants(before, id, name),
            _ => {},
        }
        assert forall|k: int| 0 <= k <= run.len() implies (#[trigger] m.after_all(run.take(k))).wf() by {
            if k < run.len() {
                assert(run.take(k) =~= prefix.take(k));
            } else {
                assert(run.take(k) =~= run);
            }
        }
    } else {
        assert forall|k: int| 0 <= k <= run.len() implies (#[trigger] m.after_all(run.take(k))).wf() by {
            assert(run.take(k) =~= run);
        }
    }
}

/// After a join, the session is in the room it asked for and in no other.
pub proof fn lemma_join_moves_session<S>(m: RelayModel<S>, id: usize, name: Seq<char>)
    requires
        m.wf(),
        m.sessions.contains_key(id),
    ensures
        m.joined(id, name).members_of(name).contains(id),
        forall|i: int|
            0 <= i < m.joined(id, name).rooms.len() ==> (
            #[trigger] m.joined(id, name).rooms[i].members.contains(id) <==> m.joined(id, name).rooms[i].name == name),
{
    let n = m.joined(id, name);
    if m.has_room(name) {
        let i = choose|i: int| 0 <= i < m.rooms.len() && #[trigger] m.rooms[i].name == name;
        assert(n.rooms[i].members.contains(id) && n.rooms[i].name == name);
    } else {
        let last = m.rooms.len() as int;
        assert(n.rooms[last].members.contains(id) && n.rooms[last].name == name);
    }
    assert(n.members_of(name).contains(id));
}

/// A session that has moved to another room, or has disconnected, is no
/// longer among the recipients of a message sent to a room it left.
pub proof fn lemma_departed_session_not_reached<S>(
    m: RelayModel<S>,
    id: usize,
    name: Seq<char>,
    room: Seq<char>,
)
    requires
        m.wf(),
        name != room,
    ensures
        !m.joined(id, name).members_of(room).contains(id),
        !m.disconnected(id).members_of(room).contains(id),
{
    if m.sessions.contains_key(id) {
        lemma_join_moves_session(m, id, name);
    } else {
        if m.members_of(room).contains(id) {
            let i = choose|i: int|
                0 <= i < m.rooms.len() && #[trigger] m.rooms[i].name == room && m.rooms[i].members.contains(id);
            assert(m.rooms[i].members.contains(id));
        }
    }
}

/// A room: its name and its members, each once.
pub struct Room {
    name: String,
    members: Vec<usize>,
}

impl View for Room {
    type V = RoomModel;

    closed spec fn view(&self) -> RoomModel {
        RoomModel { name: self.name@, members: self.members@.to_set() }
    }
}

/// Tracks connected sessions and the rooms they are in.
pub struct ChatServer<S> {
    sessions: HashMap<usize, S>,
    rooms: Vec<Room>,
    next_id: usize,
}

impl<S> View for ChatServer<S> {
    type V = RelayModel<S>;

    closed spec fn view(&self) -> RelayModel<S> {
        RelayModel {
            sessions: self.sessions@,
            rooms: self.rooms@.map_values(|r: Room| r@),
            next_id: self.next_id,
        }
    }
}

impl<S> RelayModel<S> {
    /// What a connect sends: "Someone joined" to the main room as it was, and
    /// the new id to the new session.
    pub open spec fn connect_notices(self, out: Seq<Outbound>) -> bool {
        &&& out.len() == 2
        &&& addressed(out[0], self.rooms[0].members, MessageView::Text(joined_text()))
        &&& addressed(out[1], set![self.next_id], MessageView::Id(self.next_id))
    }

    /// What a disconnect of `id` sends: "Someone disconnected" to its room
    /// mates; nothing for an unknown id.
    pub open spec fn disconnect_notices(self, id: usize, out: Seq<Outbound>) -> bool {
        if self.sessions.contains_key(id) {
            &&& out.len() == 1
            &&& addressed(out[0], self.room_mates(id), MessageView::Text(disconnected_text()))
        } else {
            out.len() == 0
        }
    }

    /// What a join of `id` to `name` sends: "Someone disconnected" to the room
    /// mates it leaves, then "Someone connected" to the other members of the
    /// room it enters; nothing for an unknown id.
    pub open spec fn join_notices(self, id: usize, name: Seq<char>, out: Seq<Outbound>) -> bool {
        if self.sessions.contains_key(id) {
            &&& out.len() == 2
            &&& addressed(out[0], self.room_mates(id), MessageView::Text(disconnected_text()))
            &&& addressed(out[1], self.members_of(name).remove(id), MessageView::Text(connected_text()))
        } else {
            out.len() == 0
        }
    }

    /// What a room listing for `id` sends: the room names, in order of
    /// creation, to `id` alone; nothing for an unknown id.
    pub open spec fn list_notices(self, id: usize, out: Seq<Outbound>) -> bool {
        if self.sessions.contains_key(id) {
            &&& out.len() == 1
            &&& out[0].to@ == seq![id]
            &&& out[0].msg@ == MessageView::Rooms(self.room_names())
        } else {
            out.len() == 0
        }
    }
}

/// The set `s` without `skip`, if there is one to skip.
pub open spec fn except(s: Set<usize>, skip: Option<usize>) -> Set<usize> {
    match skip {
        Some(x) => s.remove(x),
        None => s,
    }
}

/// The ids of `members` with `skip` left out, each once.
fn recipients(members: &Vec<usize>, skip: Option<usize>) -> (r: Vec<usize>)
    requires
        members@.no_duplicates(),
    ensures
        r@.no_duplicates(),
        r@.to_set() == except(members@.to_set(), skip),
{
    let mut r: Vec<usize> = Vec::new();
    let mut i: usize = 0;
    while i < members.len()
        invariant
            i <= members.len(),
            members@.no_duplicates(),
            r@.no_duplicates(),
            forall|x: usize|
                r@.contains(x) <==> (members@.subrange(0, i as int).contains(x) && skip != Some(x)),
        decreases members.len() - i,
    {
        let x = members[i];
        let keep = match skip {
            Some(s) => s != x,
            None => true,
        };
        assert(members@.subrange(0, i + 1) =~= members@.subrange(0, i as int).push(x));
        if keep {
            assert(!members@.subrange(0, i as int).contains(x));
            let ghost before = r@;
            r.push(x);
            assert forall|a: int, b: int|
                0 <= a < r@.len() && 0 <= b < r@.len() && a != b implies r@[a] != r@[b] by {
                if a == before.len() {
                    assert(before.contains(before[b]));
                } else if b == before.len() {
                    assert(before.contains(before[a]));
                }
            }
        }
        i += 1;
    }
    assert(members@.subrange(0, members@.len() as int) =~= members@);
    assert(r@.to_set() =~= except(members@.to_set(), skip));
    r
}

/// Where `id` stands in `members`, if it does.
fn position(members: &Vec<usize>, id: usize) -> (r: Option<usize>)
    ensures
        match r {
            Some(k) => k < members@.len() && members@[k as int] == id,
            None => !members@.contains(id),
        },
{
    let mut k: usize = 0;
    while k < members.len()
        invariant
            k <= members.len(),
            forall|j: int| 0 <= j < k ==> members@[j] != id,
        decreases members.len() - k,
    {
        if members[k] == id {
            return Some(k);
        }
        k += 1;
    }
    None
}

/// Takes `id` out of `members`.
fn remove_member(members: &mut Vec<usize>, id: usize)
    requires
        old(members)@.no_duplicates(),
    ensures
        final(members)@.no_duplicates(),
        final(members)@.to_set() == old(members)@.to_set().remove(id),
{
    match position(members, id) {
        None => {
            assert(members@.to_set() =~= members@.to_set().remove(id));
        },
        Some(k) => {
            let ghost before = members@;
            members.remove(k);
            assert forall|x: usize| #[trigger] members@.contains(x) <==> (before.contains(x) && x != id) by {
                if members@.contains(x) {
                    let j = choose|j: int| 0 <= j < members@.len() && members@[j] == x;
                    if j < k {
                        assert(before[j] == x);
                    } else {
                        assert(before[j + 1] == x);
                    }
                }
                if before.contains(x) && x != id {
                    let j = choose|j: int| 0 <= j < before.len() && before[j] == x;
                    if j < k {
                        assert(members@[j] == x);
                    } else {
                        assert(j != k);
                        assert(members@[j - 1] == x);
                    }
                }
            }
            assert(members@.to_set() =~= before.to_set().remove(id));
        },
    }
}

impl<S> ChatServer<S> {
    /// Well-formed: the model's invariants hold, and no room lists a member
    /// twice.
    pub closed spec fn wf(&self) -> bool {
        &&& self@.wf()
        &&& forall|i: int| 0 <= i < self.rooms.len() ==> (#[trigger] self.rooms@[i]).members@.no_duplicates()
    }

    /// A well-formed coordinator's model keeps every invariant: room members
    /// are registered sessions, and each session is in exactly one room.
    pub proof fn lemma_invariants(&self)
        requires
            self.wf(),
        ensures
            self@.wf(),
    {
    }

    /// A coordinator with no sessions and the empty main room.
    pub fn new() -> (r: ChatServer<S>)
        ensures
            r.wf(),
            r@.sessions.is_empty(),
            r@.rooms == seq![RoomModel { name: main_room(), members: Set::empty() }],
            r@.next_id == 0,
    {
        let main = Room { name: "Main".to_owned(), members: Vec::new() };
        let mut rooms: Vec<Room> = Vec::new();
        rooms.push(main);
        let r = ChatServer { sessions: HashMap::new(), rooms, next_id: 0 };
        assert(Seq::<usize>::empty().to_set() =~= Set::<usize>::empty());
        assert(r@.rooms =~= seq![RoomModel { name: main_room(), members: Set::empty() }]);
        r
    }

    /// Registers a session with outbound channel `sender` under the next free
    /// id and puts it in the main room. Fails only when the ids are used up.
    pub fn connect(&mut self, sender: S) -> (r: Option<(usize, Vec<Outbound>)>)
        requires
            old(self).wf(),
        ensures
            final(self).wf(),
            match r {
                Some((id, out)) => {
                    &&& old(self)@.next_id < usize::MAX
                    &&& id == old(self)@.next_id
                    &&& final(self)@ == old(self)@.connected(sender)
                    &&& old(self)@.connect_notices(out@)
                },
                None => old(self)@.next_id == usize::MAX && final(self)@ == old(self)@,
            },
    {
        if self.next_id == usize::MAX {
            return None;
        }
        let id = self.next_id;
        let ghost before = self@;
        proof {
            lemma_connect_keeps_invariants(before, sender);
        }
        let notify = recipients(&self.rooms[0].members, None);
        assert(!self.rooms@[0].members@.contains(id)) by {
            if self.rooms@[0].members@.contains(id) {
                assert(before.rooms[0].members.contains(id));
            }
        }
        self.sessions.insert(id, sender);
        self.rooms[0].members.push(id);
        self.next_id = id + 1;
        assert(self.rooms@[0].members@.to_set() =~= before.rooms[0].members.insert(id));
        assert(self@ =~= before.connected(sender));
        assert forall|i: int| 0 <= i < self.rooms.len() implies (#[trigger] self.rooms@[i]).members@.no_duplicates() by {
            if i == 0 {
                let v = self.rooms@[0].members@;
                assert forall|a: int, b: int| 0 <= a < v.len() && 0 <= b < v.len() && a != b implies v[a] != v[b] by {
                    if a == v.len() - 1 {
                        assert(before.rooms[0].members.contains(v[b]));
                    } else if b == v.len() - 1 {
                        assert(before.rooms[0].members.contains(v[a]));
                    }
                }
            }
        }
        let mut to: Vec<usize> = Vec::new();
        to.push(id);
        assert(to@.to_set() =~= set![id]);
        let mut out: Vec<Outbound> = Vec::new();
        out.push(Outbound { to: notify, msg: ClientMessage::Message("Someone joined".to_owned()) });
        out.push(Outbound { to, msg: ClientMessage::Id(id) });
        Some((id, out))
    }

    /// Removes session `id` from the session map and from its room, and tells
    /// the room mates. An unknown id changes nothing.
    pub fn disconnect(&mut self, id: usize) -> (out: Vec<Outbound>)
        requires
            old(self).wf(),
        ensures
            final(self).wf(),
            final(self)@ == old(self)@.disconnected(id),
            old(self)@.disconnect_notices(id, out@),
    {
        let ghost before = self@;
        proof {
            lemma_disconnect_keeps_invariants(before, id);
        }
        if !self.sessions.contains_key(&id) {
            return Vec::new();
        }
        let k = match self.room_of(id) {
            Some(k) => k,
            None => {
                return Vec::new();
            },
        };
        proof {
            lemma_room_mates(before, id, k as int);
        }
        self.sessions.remove(&id);
        remove_member(&mut self.rooms[k].members, id);
        let notify = recipients(&self.rooms[k].members, None);
        assert forall|j: int| 0 <= j < before.rooms.len() && j != k implies
            #[trigger] before.rooms[j].members.remove(id) == before.rooms[j].members by {
            assert(!before.rooms[j].members.contains(id));
            assert(before.rooms[j].members.remove(id) =~= before.rooms[j].members);
        }
        assert(self@ =~= before.disconnected(id));
        let mut out: Vec<Outbound> = Vec::new();
        out.push(Outbound { to: notify, msg: ClientMessage::Message("Someone disconnected".to_owned()) });
        out
    }

    /// Sends `text` to every member of `room` but `skip`. A room that does not
    /// exist has no members, so nobody gets it.
    pub fn send_message(&self, room: &String, text: &String, skip: Option<usize>) -> (out: Vec<Outbound>)
        requires
            self.wf(),
        ensures
            out@.len() == 1,
            addressed(out@[0], except(self@.members_of(room@), skip), MessageView::Text(text@)),
    {
        let to = match self.find_room(room) {
            Some(j) => {
                proof {
                    lemma_members_of_room(self@, j as int);
                }
                recipients(&self.rooms[j].members, skip)
            },
            None => {
                proof {
                    lemma_members_of_absent(self@, room@);
                }
                let to: Vec<usize> = Vec::new();
                assert(to@.to_set() =~= except(self@.members_of(room@), skip));
                to
            },
        };
        let mut out: Vec<Outbound> = Vec::new();
        out.push(Outbound { to, msg: ClientMessage::Message(text.clone()) });
        out
    }

    /// Sends session `id` the names of all rooms. An unknown id gets nothing.
    pub fn list_rooms(&self, id: usize) -> (out: Vec<Outbound>)
        requires
            self.wf(),
        ensures
            self@.list_notices(id, out@),
    {
        if !self.sessions.contains_key(&id) {
            return Vec::new();
        }
        let mut names: Vec<String> = Vec::new();
        let mut i: usize = 0;
        while i < self.rooms.len()
            invariant
                i <= self.rooms.len(),
                names@.len() == i,
                forall|k: int| 0 <= k < i ==> (#[trigger] names@[k])@ == self@.rooms[k].name,
            decreases self.rooms.len() - i,
        {
            let name = self.rooms[i].name.clone();
            names.push(name);
            i += 1;
        }
        assert(texts(names@) =~= self@.room_names());
        let mut to: Vec<usize> = Vec::new();
        to.push(id);
        let mut out: Vec<Outbound> = Vec::new();
        out.push(Outbound { to, msg: ClientMessage::Rooms(names) });
        assert(out@[0].to@ =~= seq![id]);
        out
    }

    /// Moves session `id` out of its room and into the room `name`, which is
    /// made if absent, and tells both rooms. An unknown id changes nothing.
    pub fn join(&mut self, id: usize, name: String) -> (out: Vec<Outbound>)
        requires
            old(self).wf(),
        ensures
            final(self).wf(),
            final(self)@ == old(self)@.joined(id, name@),
            old(self)@.join_notices(id, name@, out@),
    {
        let ghost before = self@;
        let ghost target_name = name@;
        proof {
            lemma_join_keeps_invariants(before, id, name@);
        }
        if !self.sessions.contains_key(&id) {
            return Vec::new();
        }
        let k = match self.room_of(id) {
            Some(k) => k,
            None => {
                return Vec::new();
            },
        };
        proof {
            lemma_room_mates(before, id, k as int);
        }
        remove_member(&mut self.rooms[k].members, id);
        let left = recipients(&self.rooms[k].members, None);
        assert forall|j: int| 0 <= j < before.rooms.len() implies
            (#[trigger] self@.rooms[j]) == (RoomModel { name: before.rooms[j].name, members: before.rooms[j].members.remove(id) }) by {
            if j != k {
                assert(!before.rooms[j].members.contains(id));
                assert(before.rooms[j].members.remove(id) =~= before.rooms[j].members);
            }
        }
        let ghost middle = self@;
        let target = match self.find_room(&name) {
            Some(j) => {
                proof {
                    lemma_members_of_room(before, j as int);
                }
                assert(!self.rooms@[j as int].members@.contains(id)) by {
                    assert(!middle.rooms[j as int].members.contains(id));
                }
                let ghost v0 = self.rooms@[j as int].members@;
                self.rooms[j].members.push(id);
                assert(self.rooms@[j as int].members@.to_set() =~= v0.to_set().insert(id));
                assert(before.has_room(target_name));
                assert forall|i: int| 0 <= i < self@.rooms.len() implies
                    #[trigger] self@.rooms[i] =~= before.joined(id, target_name).rooms[i] by {
                    if i == j {
                        assert(before.rooms[i].members.remove(id).insert(id) =~= before.rooms[i].members.insert(id));
                    } else {
                        assert(before.rooms[i].name != before.rooms[j as int].name);
                    }
                }
                assert(self@.rooms =~= before.joined(id, target_name).rooms);
                assert(self@ =~= before.joined(id, target_name));
                j
            },
            None => {
                assert(!before.has_room(target_name)) by {
                    if before.has_room(target_name) {
                        let i = choose|i: int| 0 <= i < before.rooms.len() && #[trigger] before.rooms[i].name == target_name;
                        assert(middle.rooms[i].name == target_name);
                    }
                }
                proof {
                    lemma_members_of_absent(before, target_name);
                }
                let mut members: Vec<usize> = Vec::new();
                members.push(id);
                assert(members@.to_set() =~= set![id]);
                self.rooms.push(Room { name, members });
                assert forall|i: int| 0 <= i < self@.rooms.len() implies
                    #[trigger] self@.rooms[i] =~= before.joined(id, target_name).rooms[i] by {
                    if i < before.rooms.len() {
                        assert(self@.rooms[i] == middle.rooms[i]);
                    }
                }
                assert(self@.rooms =~= before.joined(id, target_name).rooms);
                assert(self@ =~= before.joined(id, target_name));
                self.rooms.len() - 1
            },
        };
        assert forall|i: int| 0 <= i < self.rooms.len() implies (#[trigger] self.rooms@[i]).members@.no_duplicates() by {
            if i == target {
                let v = self.rooms@[i].members@;
                assert forall|a: int, b: int| 0 <= a < v.len() && 0 <= b < v.len() && a != b implies v[a] != v[b] by {
                    if a == v.len() - 1 {
                        assert(middle.rooms[i].members.contains(v[b]));
                    } else if b == v.len() - 1 {
                        assert(middle.rooms[i].members.contains(v[a]));
                    }
                }
            }
        }
        let arrived = recipients(&self.rooms[target].members, Some(id));
        assert(except(self@.rooms[target as int].members, Some(id)) =~= before.members_of(target_name).remove(id));
        let mut out: Vec<Outbound> = Vec::new();
        out.push(Outbound { to: left, msg: ClientMessage::Message("Someone disconnected".to_owned()) });
        out.push(Outbound { to: arrived, msg: ClientMessage::Message("Someone connected".to_owned()) });
        out
    }

    /// Applies one command, as the coordinator's loop does with each command
    /// it takes off its queue, and returns what is to be delivered.
    pub fn handle(&mut self, msg: ServerMessage<S>) -> (out: Vec<Outbound>)
        requires
            old(self).wf(),
        ensures
            final(self).wf(),
            match msg {
                ServerMessage::Connect(s) => final(self)@ == old(self)@.after(msg@, s),
                _ => forall|s: S| final(self)@ == #[trigger] old(self)@.after(msg@, s),
            },
            match msg {
                ServerMessage::Connect(s) => if old(self)@.next_id < usize::MAX {
                    final(self)@ == old(self)@.connected(s) && old(self)@.connect_notices(out@)
                } else {
                    final(self)@ == old(self)@ && out@.len() == 0
                },
                ServerMessage::Disconnect(id) => {
                    &&& final(self)@ == old(self)@.disconnected(id)
                    &&& old(self)@.disconnect_notices(id, out@)
                },
                ServerMessage::Message { id, msg: text, room } => {
                    &&& final(self)@ == old(self)@
                    &&& out@.len() == 1
                    &&& addressed(out@[0], old(self)@.members_of(room@).remove(id), MessageView::Text(text@))
                },
                ServerMessage::ListRooms(id) => final(self)@ == old(self)@ && old(self)@.list_notices(id, out@),
                ServerMessage::Join { id, name } => {
                    &&& final(self)@ == old(self)@.joined(id, name@)
                    &&& old(self)@.join_notices(id, name@, out@)
                },
            },
    {
        match msg {
            ServerMessage::Connect(sender) => match self.connect(sender) {
                Some((_, out)) => out,
                None => Vec::new(),
            },
            ServerMessage::Disconnect(id) => self.disconnect(id),
            ServerMessage::Message { id, msg, room } => self.send_message(&room, &msg, Some(id)),
            ServerMessage::ListRooms(id) => self.list_rooms(id),
            ServerMessage::Join { id, name } => self.join(id, name),
        }
    }

    /// The outbound channel of session `id`, if it is registered.
    pub fn session(&self, id: usize) -> (r: Option<&S>)
        ensures
            match r {
                Some(s) => self@.sessions.contains_key(id) && *s == self@.sessions[id],
                None => !self@.sessions.contains_key(id),
            },
    {
        self.sessions.get(&id)
    }

    /// The index of the room called `name`, if there is one.
    fn find_room(&self, name: &String) -> (r: Option<usize>)
        ensures
            match r {
                Some(i) => i < self@.rooms.len() && self@.rooms[i as int].name == name@,
                None => !self@.has_room(name@),
            },
    {
        let mut i: usize = 0;
        while i < self.rooms.len()
            invariant
                i <= self.rooms.len(),
                forall|j: int| 0 <= j < i ==> (#[trigger] self@.rooms[j]).name != name@,
            decreases self.rooms.len() - i,
        {
            if self.rooms[i].name == *name {
                return Some(i);
            }
            i += 1;
        }
        None
    }

    /// The index of the room that session `id` is in, if any.
    fn room_of(&self, id: usize) -> (r: Option<usize>)
        ensures
            match r {
                Some(i) => i < self@.rooms.len() && self@.rooms[i as int].members.contains(id),
                None => forall|j: int| 0 <= j < self@.rooms.len() ==> !(#[trigger] self@.rooms[j]).members.contains(id),
            },
    {
        let mut i: usize = 0;
        while i < self.rooms.len()
            invariant
                i <= self.rooms.len(),
                forall|j: int| 0 <= j < i ==> !(#[trigger] self@.rooms[j]).members.contains(id),
            decreases self.rooms.len() - i,
        {
            if let Some(k) = position(&self.rooms[i].members, id) {
                assert(self@.rooms[i as int].members.contains(id)) by {
                    assert(self.rooms@[i as int].members@[k as int] == id);
                }
                return Some(i);
            }
            i += 1;
        }
        None
    }
}

impl<S> Default for ChatServer<S> {
    fn default() -> (r: Self)
        ensures
            r.wf(),
            r@.sessions.is_empty(),
            r@.rooms == seq![RoomModel { name: main_room(), members: Set::empty() }],
            r@.next_id == 0,
    {
        ChatServer::new()
    }
}

} // verus!
