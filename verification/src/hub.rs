//! The coordinator: it owns the registry of sessions and the table of
//! rooms, and turns every request into a new state and a list of messages
//! to deliver.

use vstd::prelude::*;
use vstd::seq_lib::*;
use vstd::set_lib::*;
use crate::game::{advance_turn, judge_turn, GameTurnMessage, TurnVerdict};
use crate::messages::{
    event_kind, same_text, sent, spec_event_kind, ClientMessage, Delivery, Disconnect, EventKind,
    Join, ListRooms, Sent,
};
use crate::random::{draw_number, thread_generator};
use crate::room::{
    all_departed, departed, left_notice, lemma_without, lemma_without_keeps_others, position_of,
    take_out, without, ChatRoom, RoomView,
};

verus! {

/// The hub. Sessions and rooms are kept in the order in which they came;
/// `names[i]` is the name of `rooms[i]`.
pub struct ChatServer {
    sessions: Vec<usize>,
    names: Vec<String>,
    rooms: Vec<ChatRoom>,
    rng: rand::rngs::ThreadRng,
}

/// The mathematical value of the hub: the registered sessions, and the
/// rooms with their names.
pub struct HubView {
    pub sessions: Seq<usize>,
    pub names: Seq<Seq<char>>,
    pub rooms: Seq<RoomView>,
}

/// How the hub dealt with a client's event.
#[derive(Clone, Copy, Debug, PartialEq, Eq)]
pub enum RouteStatus {
    /// A chat line went to the room, if the room exists.
    Chat,
    /// A move was judged in the room's match and the match went to the
    /// room; `None` where the room does not exist.
    Move(Option<TurnVerdict>),
    /// The event was a move whose payload could not be decoded.
    MalformedMove,
    /// The event was neither a chat line nor a move; nothing was done.
    Unsupported,
}

/// The hub's answer to a client's event.
#[derive(Debug)]
pub struct RouteReply {
    pub status: RouteStatus,
    pub deliveries: Vec<Delivery>,
}

/// The name of the room that exists from the start and that every new
/// session enters.
pub open spec fn main_room() -> Seq<char> {
    "Main"@
}

/// The notice that a room gets when a session arrives at the hub.
pub open spec fn joined_notice() -> Seq<char> {
    "Someone joined"@
}

/// The notice that a room gets when a session enters it.
pub open spec fn entered_notice() -> Seq<char> {
    "Someone connected"@
}

/// The texts of a list of strings.
pub open spec fn texts(names: Seq<String>) -> Seq<Seq<char>> {
    names.map_values(|s: String| s@)
}

/// `id` is the identifier that a new session gets when `candidate` was
/// drawn for it: the candidate itself if no session has it, else the
/// smallest number that no session has.
pub open spec fn is_fresh_id(sessions: Seq<usize>, candidate: usize, id: usize) -> bool {
    &&& !sessions.contains(id)
    &&& !sessions.contains(candidate) ==> id == candidate
    &&& sessions.contains(candidate) ==> forall|j: usize| j < id ==> sessions.contains(j)
}

/// The notices that go out when `id` leaves the first `upto` of `rooms`:
/// room by room, to the members that stay.
pub open spec fn departure_parcels(rooms: Seq<RoomView>, id: usize, sessions: Seq<usize>, upto: int) -> Seq<
    Sent,
>
    decreases upto,
{
    if upto <= 0 {
        Seq::empty()
    } else {
        let earlier = departure_parcels(rooms, id, sessions, upto - 1);
        let room = rooms[upto - 1];
        if room.members.contains(id) {
            earlier + room.without_member(id).chat_parcels(sessions, left_notice())
        } else {
            earlier
        }
    }
}

impl HubView {
    /// No session and no room name occurs twice, every room has a name and
    /// is well formed, every seat is held by a registered session, and
    /// the main room exists.
    pub open spec fn wf(self) -> bool {
        &&& self.sessions.no_duplicates()
        &&& self.names.no_duplicates()
        &&& self.names.len() == self.rooms.len()
        &&& self.names.contains(main_room())
        &&& forall|i: int|
            0 <= i < self.rooms.len() ==> (#[trigger] self.rooms[i]).wf() && self.rooms[i].seated_among(
                self.sessions,
            )
    }

    /// The hub at its start: no session, and the main room alone.
    pub open spec fn initial() -> HubView {
        HubView {
            sessions: Seq::empty(),
            names: seq![main_room()],
            rooms: seq![RoomView::fresh()],
        }
    }

    /// Whether a room of that name exists.
    pub open spec fn has_room(self, name: Seq<char>) -> bool {
        self.names.contains(name)
    }

    /// The room of that name.
    pub open spec fn room(self, name: Seq<char>) -> RoomView
        recommends
            self.has_room(name),
    {
        self.rooms[self.names.index_of(name)]
    }

    /// The hub with the room of that name replaced.
    pub open spec fn with_room(self, name: Seq<char>, room: RoomView) -> HubView
        recommends
            self.has_room(name),
    {
        HubView { rooms: self.rooms.update(self.names.index_of(name), room), ..self }
    }

    /// The hub after a chat line went to the room of that name: the room
    /// counted the lines; an unknown name changes nothing.
    pub open spec fn after_chat(self, name: Seq<char>) -> HubView {
        if self.has_room(name) {
            self.with_room(name, self.room(name).after_broadcast(self.sessions))
        } else {
            self
        }
    }

    /// The chat lines that a broadcast of `content` to the room of that
    /// name delivers; none for an unknown name.
    pub open spec fn chat_parcels(self, name: Seq<char>, content: Seq<char>) -> Seq<Sent> {
        if self.has_room(name) {
            self.room(name).chat_parcels(self.sessions, content)
        } else {
            Seq::empty()
        }
    }

    /// The room of that name once `mover` has submitted `position` to its match.
    pub open spec fn room_played(self, name: Seq<char>, mover: usize, position: Seq<usize>) -> RoomView
        recommends
            self.has_room(name),
    {
        RoomView { game: self.room(name).game.advance(mover, position), ..self.room(name) }
    }

    /// The hub after `mover` submitted `position` in the room of that
    /// name: the match advanced as the rules say and went to the room.
    pub open spec fn after_move(self, name: Seq<char>, mover: usize, position: Seq<usize>) -> HubView {
        if self.has_room(name) {
            self.with_room(
                name,
                self.room_played(name, mover, position).after_broadcast(self.sessions),
            )
        } else {
            self
        }
    }

    /// The board updates that go out after that move.
    pub open spec fn move_parcels(self, name: Seq<char>, mover: usize, position: Seq<usize>) -> Seq<
        Sent,
    > {
        if self.has_room(name) {
            self.room_played(name, mover, position).board_parcels(self.sessions)
        } else {
            Seq::empty()
        }
    }

    /// The hub after a new session got the identifier `id`: the main room
    /// was told before the session became a member of it, and the session
    /// took a seat in its match if one was open. With both seats taken
    /// the match stays as it was, turn included.
    pub open spec fn after_connect(self, id: usize) -> HubView {
        let told = self.after_chat(main_room());
        let entered = told.room(main_room()).with_member(id);
        let room = if entered.game.player1 is None || entered.game.player2 is None {
            entered.seated(id)
        } else {
            entered
        };
        HubView { sessions: told.sessions.push(id), ..told.with_room(main_room(), room) }
    }

    /// The hub after the session `id` has gone: it is off the registry,
    /// out of every room and every seat, and each room that it was a
    /// member of was told. An unregistered `id` changes nothing.
    pub open spec fn after_disconnect(self, id: usize) -> HubView {
        if self.sessions.contains(id) {
            let staying = without(self.sessions, id);
            HubView {
                sessions: staying,
                names: self.names,
                rooms: all_departed(self.rooms, id, staying, true),
            }
        } else {
            self
        }
    }

    /// The notices that go out when the session `id` has gone.
    pub open spec fn disconnect_parcels(self, id: usize) -> Seq<Sent> {
        if self.sessions.contains(id) {
            departure_parcels(self.rooms, id, without(self.sessions, id), self.rooms.len() as int)
        } else {
            Seq::empty()
        }
    }

    /// The hub once `id` has left the members of every room, each room
    /// that it left being told. Seats are kept.
    pub open spec fn after_leaving_all(self, id: usize) -> HubView {
        HubView { rooms: all_departed(self.rooms, id, self.sessions, false), ..self }
    }

    /// The hub with a room of that name: a fresh one at the end of the
    /// table if there was none.
    pub open spec fn with_room_named(self, name: Seq<char>) -> HubView {
        if self.has_room(name) {
            self
        } else {
            HubView {
                names: self.names.push(name),
                rooms: self.rooms.push(RoomView::fresh()),
                ..self
            }
        }
    }

    /// The hub after `id` has moved to the room of that name: it left
    /// every room it was in, the room was made if need be and told of the
    /// arrival, and then `id` became a member of it.
    pub open spec fn after_join(self, id: usize, name: Seq<char>) -> HubView {
        let ready = self.after_leaving_all(id).with_room_named(name);
        ready.with_room(name, ready.room(name).after_broadcast(ready.sessions).with_member(id))
    }

    /// The notices that go out on that move: those of the departures, then
    /// that of the arrival.
    pub open spec fn join_parcels(self, id: usize, name: Seq<char>) -> Seq<Sent> {
        let ready = self.after_leaving_all(id).with_room_named(name);
        departure_parcels(self.rooms, id, self.sessions, self.rooms.len() as int)
            + ready.chat_parcels(name, entered_notice())
    }
}

impl View for ChatServer {
    type V = HubView;

    closed spec fn view(&self) -> HubView {
        HubView { sessions: self.sessions@, names: texts(self.names@), rooms: rooms_of(self.rooms@) }
    }
}

/// The values of a list of rooms.
pub open spec fn rooms_of(rooms: Seq<ChatRoom>) -> Seq<RoomView> {
    rooms.map_values(|r: ChatRoom| r@)
}

/// In a sequence without repetition, an item is found where it stands.
pub proof fn lemma_index_of_unique<A>(s: Seq<A>, i: int)
    requires
        s.no_duplicates(),
        0 <= i < s.len(),
    ensures
        s.contains(s[i]),
        s.index_of(s[i]) == i,
{
    let k = s.index_of(s[i]);
    assert(0 <= k < s.len() && s[k] == s[i]);
}

/// A sequence that holds every number below `n` has at least `n` items.
pub proof fn lemma_crowded(s: Seq<usize>, n: nat)
    requires
        n <= usize::MAX + 1,
        forall|j: usize| j < n ==> s.contains(j),
    ensures
        n <= s.len(),
{
    let ints = s.map_values(|x: usize| x as int);
    let below = set_int_range(0, n as int);
    lemma_int_range(0, n as int);
    ints.lemma_cardinality_of_set();
    assert(below.subset_of(ints.to_set())) by {
        assert forall|v: int| below.contains(v) implies ints.to_set().contains(v) by {
            let j = v as usize;
            assert(s.contains(j));
            let i = choose|i: int| 0 <= i < s.len() && s[i] == j;
            assert(ints[i] == v);
        }
    }
    lemma_len_subset(below, ints.to_set());
}

/// Picks the identifier of a new session from the number drawn for it.
pub fn fresh_id(sessions: &Vec<usize>, candidate: usize) -> (id: usize)
    ensures
        is_fresh_id(sessions@, candidate, id),
{
    if position_of(sessions, candidate).is_none() {
        return candidate;
    }
    let registered: usize = sessions.len();
    let mut k: usize = 0;
    while position_of(sessions, k).is_some()
        invariant
            registered == sessions@.len(),
            k <= registered,
            forall|j: usize| j < k ==> sessions@.contains(j),
        decreases registered - k,
    {
        proof {
            lemma_crowded(sessions@, (k + 1) as nat);
        }
        k += 1;
    }
    k
}

/// Replacing a room by a well-formed one whose seats are held by
/// registered sessions keeps the hub well formed.
pub proof fn lemma_with_room_wf(hub: HubView, name: Seq<char>, room: RoomView)
    requires
        hub.wf(),
        hub.has_room(name),
        room.wf(),
        room.seated_among(hub.sessions),
    ensures
        hub.with_room(name, room).wf(),
{
    let after = hub.with_room(name, room);
    assert forall|i: int| 0 <= i < after.rooms.len() implies (#[trigger] after.rooms[i]).wf()
        && after.rooms[i].seated_among(after.sessions) by {
        if i != hub.names.index_of(name) {
            assert(hub.rooms[i].wf());
        }
    }
}

/// Registering a session that was not registered keeps the hub well formed.
pub proof fn lemma_registering_keeps_wf(hub: HubView, id: usize)
    requires
        hub.wf(),
        !hub.sessions.contains(id),
    ensures
        (HubView { sessions: hub.sessions.push(id), ..hub }).wf(),
{
    let after = HubView { sessions: hub.sessions.push(id), ..hub };
    assert forall|i: int| 0 <= i < after.rooms.len() implies (#[trigger] after.rooms[i]).wf()
        && after.rooms[i].seated_among(after.sessions) by {
        let room = hub.rooms[i];
        assert(room.wf() && room.seated_among(hub.sessions));
        lemma_push_keeps(hub.sessions, id, room.game.player1);
        lemma_push_keeps(hub.sessions, id, room.game.player2);
    }
}

/// Whoever is among `items` is among them after one more was added.
pub proof fn lemma_push_keeps(items: Seq<usize>, id: usize, holder: Option<usize>)
    requires
        holder is Some ==> items.contains(holder->0),
    ensures
        holder is Some ==> items.push(id).contains(holder->0),
{
    if holder is Some {
        let k = items.index_of(holder->0);
        assert(0 <= k < items.len() && items[k] == holder->0);
        assert(items.push(id)[k] == holder->0);
    }
}

/// Once `id` has left a room and its seat, the seats of the room are held
/// by sessions other than `id` that stay registered.
pub proof fn lemma_departed_seats(room: RoomView, id: usize, sessions: Seq<usize>)
    requires
        room.wf(),
        room.seated_among(sessions),
    ensures
        ({
            let after = departed(room, id, without(sessions, id), true);
            &&& after.seated_among(without(sessions, id))
            &&& after.game.player1 != Some(id)
            &&& after.game.player2 != Some(id)
        }),
{
    let after = departed(room, id, without(sessions, id), true);
    if after.game.player1 is Some {
        lemma_without_keeps_others(sessions, id, after.game.player1->0);
    }
    if after.game.player2 is Some {
        lemma_without_keeps_others(sessions, id, after.game.player2->0);
    }
}

impl Default for ChatServer {
    /// The hub at its start, with the calling thread's generator.
    fn default() -> (hub: ChatServer)
        ensures
            hub@ == HubView::initial(),
            hub@.wf(),
    {
        let mut names: Vec<String> = Vec::new();
        names.push("Main".to_owned());
        let mut rooms: Vec<ChatRoom> = Vec::new();
        rooms.push(ChatRoom::new());
        let hub = ChatServer { sessions: Vec::new(), names, rooms, rng: thread_generator() };
        proof {
            assert(hub@.names =~= seq![main_room()]);
            assert(hub@.rooms =~= seq![RoomView::fresh()]);
            assert(hub@.sessions =~= Seq::empty());
            assert(hub@.names[0] == main_room());
        }
        hub
    }
}

impl ChatServer {
    /// Where the room of that name stands in the table.
    fn find_room(&self, name: &str) -> (at: Option<usize>)
        requires
            self@.names.no_duplicates(),
            self@.names.len() == self@.rooms.len(),
        ensures
            match at {
                Some(i) => self@.has_room(name@) && i == self@.names.index_of(name@) && i
                    < self.rooms@.len(),
                None => !self@.has_room(name@),
            },
    {
        let mut i: usize = 0;
        while i < self.names.len()
            invariant
                i <= self.names@.len(),
                self@.names.no_duplicates(),
                self@.names.len() == self@.rooms.len(),
                forall|j: int| 0 <= j < i ==> self@.names[j] != name@,
            decreases self.names@.len() - i,
        {
            if same_text(self.names[i].as_str(), name) {
                proof {
                    lemma_index_of_unique(self@.names, i as int);
                }
                return Some(i);
            }
            i += 1;
        }
        None
    }

    /// The registered sessions, in the order in which they connected.
    pub fn sessions(&self) -> (ids: &Vec<usize>)
        ensures
            ids@ == self@.sessions,
    {
        &self.sessions
    }

    /// The room of that name, if it exists.
    pub fn room(&self, name: &str) -> (found: Option<&ChatRoom>)
        requires
            self@.wf(),
        ensures
            found is Some == self@.has_room(name@),
            found is Some ==> found->0@ == self@.room(name@),
    {
        match self.find_room(name) {
            Some(i) => Some(&self.rooms[i]),
            None => None,
        }
    }

    /// Sends `message` as a chat line to the room of that name: to every
    /// member that is registered, the sender too, each line counted. An
    /// unknown name does nothing.
    pub fn send_chat(&mut self, room_name: &str, message: &str, skip_id: usize) -> (out: Vec<
        Delivery,
    >)
        requires
            old(self)@.wf(),
        ensures
            final(self)@ == old(self)@.after_chat(room_name@),
            sent(out@) == old(self)@.chat_parcels(room_name@, message@),
            final(self)@.wf(),
    {
        match self.find_room(room_name) {
            Some(i) => {
                let out = self.rooms[i].broadcast_chat(&self.sessions, message);
                proof {
                    let room = old(self)@.room(room_name@).after_broadcast(old(self)@.sessions);
                    assert(old(self)@.rooms[i as int].wf());
                    assert(self@.rooms =~= old(self)@.rooms.update(i as int, room));
                    lemma_with_room_wf(old(self)@, room_name@, room);
                }
                out
            },
            None => {
                let out: Vec<Delivery> = Vec::new();
                assert(sent(out@) =~= Seq::empty());
                out
            },
        }
    }

    /// Plays `turn` for the session `skip_id` in the match of the room of
    /// that name and sends the match, as it then stands, to the room. The
    /// verdict on the move comes back with the deliveries; a move that is
    /// not accepted leaves the match as it was, and the room still gets
    /// it. An unknown name does nothing.
    pub fn send_turn(&mut self, room_name: &str, turn: GameTurnMessage, skip_id: usize) -> (reply: (
        Option<TurnVerdict>,
        Vec<Delivery>,
    ))
        requires
            old(self)@.wf(),
        ensures
            final(self)@ == old(self)@.after_move(room_name@, skip_id, turn.position@),
            sent(reply.1@) == old(self)@.move_parcels(room_name@, skip_id, turn.position@),
            reply.0 == if old(self)@.has_room(room_name@) {
                Some(old(self)@.room(room_name@).game.verdict(skip_id, turn.position@))
            } else {
                None
            },
            final(self)@.wf(),
    {
        match self.find_room(room_name) {
            Some(i) => {
                assert(old(self)@.rooms[i as int].wf());
                let verdict = judge_turn(skip_id, &turn, &self.rooms[i].game_state);
                let next = advance_turn(skip_id, turn, self.rooms[i].game_state.clone());
                self.rooms[i].game_state = next;
                let out = self.rooms[i].broadcast_board(&self.sessions);
                proof {
                    let room = old(self)@.room_played(
                        room_name@,
                        skip_id,
                        turn.position@,
                    ).after_broadcast(old(self)@.sessions);
                    assert(self@.rooms =~= old(self)@.rooms.update(i as int, room));
                    lemma_with_room_wf(old(self)@, room_name@, room);
                }
                (Some(verdict), out)
            },
            None => {
                let out: Vec<Delivery> = Vec::new();
                assert(sent(out@) =~= Seq::empty());
                (None, out)
            },
        }
    }

    /// Registers a new session for which `candidate` was drawn. The main
    /// room is told first, so the newcomer gets no notice of itself; then
    /// the session is registered under a fresh identifier, enters the main
    /// room and, if its match has an open seat, takes it. A match with
    /// both seats taken is left alone.
    pub fn connect_with(&mut self, candidate: usize) -> (reply: (usize, Vec<Delivery>))
        requires
            old(self)@.wf(),
        ensures
            is_fresh_id(old(self)@.sessions, candidate, reply.0),
            final(self)@ == old(self)@.after_connect(reply.0),
            final(self)@.sessions == old(self)@.sessions.push(reply.0),
            sent(reply.1@) == old(self)@.chat_parcels(main_room(), joined_notice()),
            final(self)@.wf(),
    {
        let out = self.send_chat("Main", "Someone joined", 0);
        let ghost told = self@;
        let id = fresh_id(&self.sessions, candidate);
        self.sessions.push(id);
        assert(self@.sessions.no_duplicates());
        match self.find_room("Main") {
            Some(m) => {
                assert(told.rooms[m as int].wf());
                self.rooms[m].add_member(id);
                let open_seat = self.rooms[m].game_state.player1.is_none()
                    || self.rooms[m].game_state.player2.is_none();
                if open_seat {
                    self.rooms[m].game_state.add_player(id);
                }
                proof {
                    let registered = HubView { sessions: told.sessions.push(id), ..told };
                    lemma_registering_keeps_wf(told, id);
                    let before = told.room(main_room());
                    let entered = before.with_member(id);
                    let room = if open_seat {
                        entered.seated(id)
                    } else {
                        entered
                    };
                    assert(before.wf() && before.seated_among(told.sessions));
                    lemma_push_keeps(told.sessions, id, before.game.player1);
                    lemma_push_keeps(told.sessions, id, before.game.player2);
                    assert(registered.sessions[told.sessions.len() as int] == id);
                    assert(room.wf());
                    assert(room.seated_among(registered.sessions));
                    assert(self@.rooms =~= told.rooms.update(m as int, room));
                    lemma_with_room_wf(registered, main_room(), room);
                }
            },
            None => {},
        }
        (id, out)
    }

    /// Registers a new session under an identifier drawn at random, or, if
    /// that one is taken, under the smallest that is free. Whatever was
    /// drawn, the identifier is one that no registered session has.
    pub fn connect(&mut self) -> (reply: (usize, Vec<Delivery>))
        requires
            old(self)@.wf(),
        ensures
            !old(self)@.sessions.contains(reply.0),
            final(self)@ == old(self)@.after_connect(reply.0),
            final(self)@.sessions == old(self)@.sessions.push(reply.0),
            sent(reply.1@) == old(self)@.chat_parcels(main_room(), joined_notice()),
            final(self)@.wf(),
    {
        let candidate = draw_number(&mut self.rng);
        self.connect_with(candidate)
    }

    /// Lets `id` leave the members of every room, with `unseat` every
    /// seat too, and gathers the notices for those who stay.
    fn leave_all(&mut self, id: usize, unseat: bool) -> (out: Vec<Delivery>)
        requires
            forall|i: int| 0 <= i < old(self)@.rooms.len() ==> (#[trigger] old(self)@.rooms[i]).wf(),
        ensures
            final(self)@.sessions == old(self)@.sessions,
            final(self)@.names == old(self)@.names,
            final(self)@.rooms == all_departed(old(self)@.rooms, id, old(self)@.sessions, unseat),
            forall|i: int| 0 <= i < final(self)@.rooms.len() ==> (#[trigger] final(self)@.rooms[i]).wf(),
            sent(out@) == departure_parcels(
                old(self)@.rooms,
                id,
                old(self)@.sessions,
                old(self)@.rooms.len() as int,
            ),
    {
        let ghost before = old(self)@;
        let mut out: Vec<Delivery> = Vec::new();
        assert(sent(out@) =~= Seq::empty());
        let mut i: usize = 0;
        while i < self.rooms.len()
            invariant
                i <= before.rooms.len(),
                self@.sessions == before.sessions,
                self@.names == before.names,
                self@.rooms.len() == before.rooms.len(),
                forall|j: int| 0 <= j < before.rooms.len() ==> (#[trigger] before.rooms[j]).wf(),
                forall|j: int|
                    0 <= j < i ==> #[trigger] self@.rooms[j] == departed(
                        before.rooms[j],
                        id,
                        before.sessions,
                        unseat,
                    ),
                forall|j: int| 0 <= j < i ==> (#[trigger] self@.rooms[j]).wf(),
                forall|j: int| i <= j < before.rooms.len() ==> #[trigger] self@.rooms[j] == before.rooms[j],
                sent(out@) == departure_parcels(before.rooms, id, before.sessions, i as int),
            decreases before.rooms.len() - i,
        {
            assert(before.rooms[i as int].wf());
            assert(self@.rooms[i as int] == before.rooms[i as int]);
            assert(self.rooms@[i as int]@ == self@.rooms[i as int]);
            let ghost so_far = sent(out@);
            let ghost rooms_so_far = self@.rooms;
            let mut notes = self.rooms[i].leave(id, &self.sessions, unseat);
            let ghost told = sent(notes@);
            out.append(&mut notes);
            assert(sent(out@) =~= so_far + told);
            assert(self@.rooms =~= rooms_so_far.update(
                i as int,
                departed(before.rooms[i as int], id, before.sessions, unseat),
            ));
            i += 1;
        }
        assert(self@.rooms =~= all_departed(before.rooms, id, before.sessions, unseat));
        out
    }

    /// Takes the session `msg.id` off the registry, out of every room and
    /// out of every seat, and tells each room that it was a member of. A
    /// session that is not registered is left where it is.
    pub fn disconnect(&mut self, msg: Disconnect) -> (out: Vec<Delivery>)
        requires
            old(self)@.wf(),
        ensures
            final(self)@ == old(self)@.after_disconnect(msg.id),
            sent(out@) == old(self)@.disconnect_parcels(msg.id),
            final(self)@.wf(),
    {
        let id = msg.id;
        if !take_out(&mut self.sessions, id) {
            let out: Vec<Delivery> = Vec::new();
            assert(sent(out@) =~= Seq::empty());
            return out;
        }
        let out = self.leave_all(id, true);
        proof {
            let before = old(self)@;
            assert forall|i: int| 0 <= i < self@.rooms.len() implies (#[trigger] self@.rooms[i]).seated_among(
                self@.sessions,
            ) by {
                assert(before.rooms[i].wf() && before.rooms[i].seated_among(before.sessions));
                lemma_departed_seats(before.rooms[i], id, before.sessions);
            }
        }
        out
    }

    /// Deals with an event from a client. A chat line goes to the room as
    /// it is. A move is played if `decoded_move` holds it; where the
    /// payload could not be decoded, nothing happens and the status says
    /// so. Any other kind of event is refused.
    pub fn route_client_event(&mut self, msg: ClientMessage, decoded_move: Option<GameTurnMessage>) -> (reply:
        RouteReply)
        requires
            old(self)@.wf(),
        ensures
            final(self)@.wf(),
            match spec_event_kind(msg.event_type@) {
                EventKind::Chat => {
                    &&& reply.status == RouteStatus::Chat
                    &&& final(self)@ == old(self)@.after_chat(msg.room@)
                    &&& sent(reply.deliveries@) == old(self)@.chat_parcels(msg.room@, msg.msg@)
                },
                EventKind::Move => match decoded_move {
                    Some(turn) => {
                        &&& reply.status == RouteStatus::Move(
                            if old(self)@.has_room(msg.room@) {
                                Some(
                                    old(self)@.room(msg.room@).game.verdict(msg.id, turn.position@),
                                )
                            } else {
                                None
                            },
                        )
                        &&& final(self)@ == old(self)@.after_move(msg.room@, msg.id, turn.position@)
                        &&& sent(reply.deliveries@) == old(self)@.move_parcels(
                            msg.room@,
                            msg.id,
                            turn.position@,
                        )
                    },
                    None => {
                        &&& reply.status == RouteStatus::MalformedMove
                        &&& final(self)@ == old(self)@
                        &&& reply.deliveries@.len() == 0
                    },
                },
                EventKind::Unsupported => {
                    &&& reply.status == RouteStatus::Unsupported
                    &&& final(self)@ == old(self)@
                    &&& reply.deliveries@.len() == 0
                },
            },
    {
        match event_kind(msg.event_type.as_str()) {
            EventKind::Chat => {
                let deliveries = self.send_chat(msg.room.as_str(), msg.msg.as_str(), msg.id);
                RouteReply { status: RouteStatus::Chat, deliveries }
            },
            EventKind::Move => match decoded_move {
                Some(turn) => {
                    let (verdict, deliveries) = self.send_turn(msg.room.as_str(), turn, msg.id);
                    RouteReply { status: RouteStatus::Move(verdict), deliveries }
                },
                None => RouteReply { status: RouteStatus::MalformedMove, deliveries: Vec::new() },
            },
            EventKind::Unsupported => RouteReply {
                status: RouteStatus::Unsupported,
                deliveries: Vec::new(),
            },
        }
    }

    /// The names of the rooms, in the order in which they were made.
    pub fn list_rooms(&self, request: ListRooms) -> (names: Vec<String>)
        ensures
            texts(names@) == self@.names,
    {
        let mut names: Vec<String> = Vec::new();
        let mut i: usize = 0;
        while i < self.names.len()
            invariant
                i <= self.names@.len(),
                names@.len() == i,
                forall|j: int| 0 <= j < i ==> (#[trigger] names@[j])@ == self.names@[j]@,
            decreases self.names@.len() - i,
        {
            names.push(self.names[i].clone());
            i += 1;
        }
        assert(texts(names@) =~= self@.names);
        names
    }

    /// Moves the session `msg.id` to the room `msg.name`. It leaves the
    /// members of every room, each room that it left being told; the room
    /// is made if it does not exist and told of the arrival; then the
    /// session becomes a member. Seats in matches are not touched.
    pub fn join(&mut self, msg: Join) -> (out: Vec<Delivery>)
        requires
            old(self)@.wf(),
        ensures
            final(self)@ == old(self)@.after_join(msg.id, msg.name@),
            sent(out@) == old(self)@.join_parcels(msg.id, msg.name@),
            final(self)@.wf(),
    {
        let Join { id, name } = msg;
        let ghost before = old(self)@;
        let mut out = self.leave_all(id, false);
        let ghost left = before.after_leaving_all(id);
        assert(self@.rooms =~= left.rooms);
        assert(self@ == left);
        assert(left.names.contains(main_room()));
        if self.find_room(name.as_str()).is_none() {
            self.names.push(name.clone());
            self.rooms.push(ChatRoom::new());
            proof {
                assert(self@.names =~= left.names.push(name@));
                assert(self@.rooms =~= left.rooms.push(RoomView::fresh()));
                assert(self@.names[0] == left.names[0]);
                let k = left.names.index_of(main_room());
                assert(self@.names[k] == main_room());
            }
        }
        let ghost ready = left.with_room_named(name@);
        assert(self@ == ready);
        assert(ready.has_room(name@)) by {
            if !left.has_room(name@) {
                assert(ready.names[left.names.len() as int] == name@);
            }
        }
        assert(ready.wf());
        match self.find_room(name.as_str()) {
            Some(t) => {
                assert(ready.rooms[t as int].wf());
                let ghost so_far = sent(out@);
                let mut notes = self.rooms[t].broadcast_chat(&self.sessions, "Someone connected");
                let ghost told = sent(notes@);
                out.append(&mut notes);
                assert(sent(out@) =~= so_far + told);
                self.rooms[t].add_member(id);
                proof {
                    let room = ready.room(name@).after_broadcast(ready.sessions).with_member(id);
                    assert(self@.rooms =~= ready.rooms.update(t as int, room));
                    lemma_with_room_wf(ready, name@, room);
                }
            },
            None => {},
        }
        out
    }
}

/// Identifiers handed out one after the other, each free when it was
/// handed out and registered from then on, are pairwise distinct, and none
/// is one that was registered at the start.
pub proof fn lemma_sequential_ids_distinct(start: Seq<usize>, ids: Seq<usize>)
    requires
        forall|k: int| 0 <= k < ids.len() ==> !(start + ids.take(k)).contains(#[trigger] ids[k]),
    ensures
        ids.no_duplicates(),
        forall|k: int| 0 <= k < ids.len() ==> !start.contains(#[trigger] ids[k]),
{
    assert forall|a: int, b: int| 0 <= a < ids.len() && 0 <= b < ids.len() && a != b implies ids[a]
        != ids[b] by {
        let lo = if a < b { a } else { b };
        let hi = if a < b { b } else { a };
        let seen = start + ids.take(hi);
        assert(seen[start.len() + lo] == ids[lo]);
        assert(!seen.contains(ids[hi]));
    }
    assert forall|k: int| 0 <= k < ids.len() implies !start.contains(#[trigger] ids[k]) by {
        let seen = start + ids.take(k);
        if start.contains(ids[k]) {
            let i = choose|i: int| 0 <= i < start.len() && start[i] == ids[k];
            assert(seen[i] == ids[k]);
        }
    }
}

/// Once a registered session has disconnected it is off the registry, no
/// room has it as a member, and no match has it in a seat.
pub proof fn lemma_disconnect_clears(hub: HubView, id: usize)
    requires
        hub.wf(),
        hub.sessions.contains(id),
    ensures
        ({
            let after = hub.after_disconnect(id);
            &&& after.wf()
            &&& !after.sessions.contains(id)
            &&& after.names == hub.names
            &&& after.rooms.len() == hub.rooms.len()
            &&& forall|i: int|
                0 <= i < after.rooms.len() ==> {
                    &&& !(#[trigger] after.rooms[i]).members.contains(id)
                    &&& after.rooms[i].game.player1 != Some(id)
                    &&& after.rooms[i].game.player2 != Some(id)
                }
        }),
{
    let after = hub.after_disconnect(id);
    lemma_without(hub.sessions, id, hub.sessions.index_of(id));
    assert forall|i: int| 0 <= i < after.rooms.len() implies {
        &&& (#[trigger] after.rooms[i]).wf()
        &&& after.rooms[i].seated_among(after.sessions)
        &&& !after.rooms[i].members.contains(id)
        &&& after.rooms[i].game.player1 != Some(id)
        &&& after.rooms[i].game.player2 != Some(id)
    } by {
        let room = hub.rooms[i];
        assert(room.wf() && room.seated_among(hub.sessions));
        lemma_departed_seats(room, id, hub.sessions);
        if room.members.contains(id) {
            lemma_without(room.members, id, room.members.index_of(id));
        }
    }
}

/// After a session has joined a room, the room exists under its name, no
/// name is listed twice, the session is a member of it, and a name that
/// was unknown before stands at the end of the list.
pub proof fn lemma_joined_room_listed_once(hub: HubView, id: usize, name: Seq<char>)
    requires
        hub.wf(),
    ensures
        ({
            let after = hub.after_join(id, name);
            &&& after.has_room(name)
            &&& after.names.no_duplicates()
            &&& after.names.len() == after.rooms.len()
            &&& after.room(name).members.contains(id)
            &&& hub.has_room(name) ==> after.names == hub.names
            &&& !hub.has_room(name) ==> after.names == hub.names.push(name)
        }),
{
    let ready = hub.after_leaving_all(id).with_room_named(name);
    let after = hub.after_join(id, name);
    if !hub.has_room(name) {
        assert(ready.names[hub.names.len() as int] == name);
    }
    assert(ready.has_room(name));
    let t = ready.names.index_of(name);
    let members = ready.room(name).members;
    if !members.contains(id) {
        assert(members.push(id)[members.len() as int] == id);
    }
    assert(after.rooms[t].members.contains(id));
}

} // verus!
