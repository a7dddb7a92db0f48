//! A room: its members, its message counter and its match.

use vstd::prelude::*;
use crate::game::{GameView, TicTacToeGame};
use crate::messages::{board_delivery, board_parcel, chat_delivery, chat_parcel, sent, Delivery, Sent};

verus! {

/// A named group of sessions that share a chat and one match. The members
/// are kept in the order in which they entered, each at most once.
#[derive(Debug)]
pub struct ChatRoom {
    pub sessions_subscribed_to_room: Vec<usize>,
    pub message_count: usize,
    pub game_state: TicTacToeGame,
}

/// The mathematical value of a room.
pub struct RoomView {
    pub members: Seq<usize>,
    pub message_count: usize,
    pub game: GameView,
}

impl View for ChatRoom {
    type V = RoomView;

    open spec fn view(&self) -> RoomView {
        RoomView {
            members: self.sessions_subscribed_to_room@,
            message_count: self.message_count,
            game: self.game_state@,
        }
    }
}

/// The predicate "is one of `sessions`".
pub open spec fn one_of(sessions: Seq<usize>) -> spec_fn(usize) -> bool {
    |id: usize| sessions.contains(id)
}

/// `items` with `id` taken out, where `items` holds it at most once.
pub open spec fn without(items: Seq<usize>, id: usize) -> Seq<usize> {
    if items.contains(id) {
        items.remove(items.index_of(id))
    } else {
        items
    }
}

/// `items` with `id` at the end, unless it is there already.
pub open spec fn with(items: Seq<usize>, id: usize) -> Seq<usize> {
    if items.contains(id) {
        items
    } else {
        items.push(id)
    }
}

/// A counter at `count` after `sent` more messages. It stops at the
/// largest value that the machine can hold.
pub open spec fn count_after(count: usize, sent: nat) -> usize {
    if count + sent > usize::MAX {
        usize::MAX
    } else {
        (count + sent) as usize
    }
}

/// The notice that a room gets when a member leaves it.
pub open spec fn left_notice() -> Seq<char> {
    "Someone disconnected"@
}


/// Taking out the item at `i` takes out `id`, which stood there, and
/// leaves the rest distinct.
pub proof fn lemma_without(items: Seq<usize>, id: usize, i: int)
    requires
        items.no_duplicates(),
        0 <= i < items.len(),
        items[i] == id,
    ensures
        without(items, id) == items.remove(i),
        !without(items, id).contains(id),
        without(items, id).no_duplicates(),
{
    let k = items.index_of(id);
    assert(0 <= k < items.len() && items[k] == id);
    let rest = items.remove(i);
    assert forall|j: int| 0 <= j < rest.len() implies rest[j] != id by {
        if j < i {
            assert(rest[j] == items[j]);
        } else {
            assert(rest[j] == items[j + 1]);
        }
    }
    assert forall|a: int, b: int| 0 <= a < rest.len() && 0 <= b < rest.len() && a != b implies rest[a]
        != rest[b] by {
        let a0 = if a < i { a } else { a + 1 };
        let b0 = if b < i { b } else { b + 1 };
        assert(rest[a] == items[a0]);
        assert(rest[b] == items[b0]);
    }
}

/// Taking `id` out of `items` leaves every other item in.
pub proof fn lemma_without_keeps_others(items: Seq<usize>, id: usize, other: usize)
    requires
        items.contains(other),
        other != id,
    ensures
        without(items, id).contains(other),
{
    if items.contains(id) {
        let i = items.index_of(id);
        let k = items.index_of(other);
        assert(0 <= i < items.len() && items[i] == id);
        assert(0 <= k < items.len() && items[k] == other);
        let rest = items.remove(i);
        if k < i {
            assert(rest[k] == other);
        } else {
            assert(rest[k - 1] == other);
        }
    }
}

impl RoomView {
    /// No member occurs twice, the match is well formed, its seats are
    /// held by different players, and once both are taken the turn belongs
    /// to one of the two.
    pub open spec fn wf(self) -> bool {
        &&& self.members.no_duplicates()
        &&& self.game.wf()
        &&& self.game.turn_is_seated()
        &&& self.game.seats_differ()
    }

    /// Whoever holds a seat in the match is one of `sessions`.
    pub open spec fn seated_among(self, sessions: Seq<usize>) -> bool {
        &&& self.game.player1 is Some ==> sessions.contains(self.game.player1->0)
        &&& self.game.player2 is Some ==> sessions.contains(self.game.player2->0)
    }

    /// A room without members, messages or players.
    pub open spec fn fresh() -> RoomView {
        RoomView { members: Seq::empty(), message_count: 0, game: GameView::empty() }
    }

    /// The members that a broadcast reaches: those among `sessions`, in
    /// the order in which they entered the room.
    pub open spec fn recipients(self, sessions: Seq<usize>) -> Seq<usize> {
        self.members.filter(one_of(sessions))
    }

    /// The room after one broadcast: each message delivered was counted.
    pub open spec fn after_broadcast(self, sessions: Seq<usize>) -> RoomView {
        RoomView {
            message_count: count_after(self.message_count, self.recipients(sessions).len()),
            ..self
        }
    }

    /// What a chat broadcast of `content` delivers: one line for each
    /// recipient, each carrying the counter as it stood after that line.
    pub open spec fn chat_parcels(self, sessions: Seq<usize>, content: Seq<char>) -> Seq<Sent> {
        let to = self.recipients(sessions);
        Seq::new(
            to.len(),
            |k: int| chat_parcel(to[k], content, count_after(self.message_count, (k + 1) as nat)),
        )
    }

    /// What a broadcast of the match delivers: the room's match, once for
    /// each recipient.
    pub open spec fn board_parcels(self, sessions: Seq<usize>) -> Seq<Sent> {
        let to = self.recipients(sessions);
        Seq::new(to.len(), |k: int| board_parcel(to[k], self.game))
    }

    /// The room once `id` has left its members.
    pub open spec fn without_member(self, id: usize) -> RoomView {
        RoomView { members: without(self.members, id), ..self }
    }

    /// The room once `id` is among its members.
    pub open spec fn with_member(self, id: usize) -> RoomView {
        RoomView { members: with(self.members, id), ..self }
    }

    /// The room once `id` has given up its seat in the match.
    pub open spec fn unseated(self, id: usize) -> RoomView {
        RoomView { game: self.game.remove_player(id), ..self }
    }

    /// The room once `id` has asked for a seat in the match.
    pub open spec fn seated(self, id: usize) -> RoomView {
        RoomView { game: self.game.add_player(id), ..self }
    }
}

/// A room once `id` has left it: no longer a member, told of by a notice
/// to those who stay; with `unseat` it also gives up its seat, member or
/// not. A room that `id` was no member of gets no notice.
pub open spec fn departed(room: RoomView, id: usize, sessions: Seq<usize>, unseat: bool) -> RoomView {
    let played = if unseat {
        room.unseated(id)
    } else {
        room
    };
    if room.members.contains(id) {
        played.without_member(id).after_broadcast(sessions)
    } else {
        played
    }
}

/// Every one of `rooms` once `id` has left it.
pub open spec fn all_departed(rooms: Seq<RoomView>, id: usize, sessions: Seq<usize>, unseat: bool) -> Seq<
    RoomView,
> {
    Seq::new(rooms.len(), |i: int| departed(rooms[i], id, sessions, unseat))
}

/// Where `id` first stands in `items`, if it is there.
pub fn position_of(items: &Vec<usize>, id: usize) -> (at: Option<usize>)
    ensures
        match at {
            Some(i) => i < items@.len() && items@[i as int] == id && forall|j: int|
                0 <= j < i ==> items@[j] != id,
            None => !items@.contains(id),
        },
{
    let mut i: usize = 0;
    while i < items.len()
        invariant
            i <= items@.len(),
            forall|j: int| 0 <= j < i ==> items@[j] != id,
        decreases items@.len() - i,
    {
        if items[i] == id {
            return Some(i);
        }
        i += 1;
    }
    None
}

/// Takes `id` out of `items` and says whether it was there.
pub fn take_out(items: &mut Vec<usize>, id: usize) -> (was_there: bool)
    requires
        old(items)@.no_duplicates(),
    ensures
        was_there == old(items)@.contains(id),
        final(items)@ == without(old(items)@, id),
        !final(items)@.contains(id),
        final(items)@.no_duplicates(),
{
    match position_of(items, id) {
        Some(i) => {
            proof {
                lemma_without(items@, id, i as int);
            }
            items.remove(i);
            true
        },
        None => false,
    }
}

impl ChatRoom {
    /// A room without members, messages or players.
    pub fn new() -> (room: Self)
        ensures
            room@ == RoomView::fresh(),
            room@.wf(),
    {
        ChatRoom {
            sessions_subscribed_to_room: Vec::new(),
            message_count: 0,
            game_state: TicTacToeGame::new(),
        }
    }

    /// Takes `id` out of the members and says whether it was one.
    pub fn remove_member(&mut self, id: usize) -> (was_member: bool)
        requires
            old(self)@.members.no_duplicates(),
        ensures
            was_member == old(self)@.members.contains(id),
            final(self)@ == old(self)@.without_member(id),
            !final(self)@.members.contains(id),
            final(self)@.members.no_duplicates(),
    {
        take_out(&mut self.sessions_subscribed_to_room, id)
    }

    /// Puts `id` among the members, unless it is one already.
    pub fn add_member(&mut self, id: usize)
        requires
            old(self)@.members.no_duplicates(),
        ensures
            final(self)@ == old(self)@.with_member(id),
            final(self)@.members.contains(id),
            final(self)@.members.no_duplicates(),
    {
        if position_of(&self.sessions_subscribed_to_room, id).is_none() {
            self.sessions_subscribed_to_room.push(id);
            assert(self.sessions_subscribed_to_room@[old(self)@.members.len() as int] == id);
        }
    }

    /// The one pass over the members behind both kinds of broadcast: it
    /// sends `line` as a chat line where there is one, else the room's
    /// match, to every member that is one of `sessions`, and counts each
    /// message.
    fn fan_out(&mut self, sessions: &Vec<usize>, line: Option<&str>) -> (out: Vec<Delivery>)
        ensures
            final(self)@ == old(self)@.after_broadcast(sessions@),
            sent(out@) == match line {
                Some(text) => old(self)@.chat_parcels(sessions@, text@),
                None => old(self)@.board_parcels(sessions@),
            },
    {
        let ghost before = self@;
        let mut out: Vec<Delivery> = Vec::new();
        let mut k: usize = 0;
        while k < self.sessions_subscribed_to_room.len()
            invariant
                k <= before.members.len(),
                self@.members == before.members,
                self@.game == before.game,
                self.message_count == count_after(
                    before.message_count,
                    before.members.take(k as int).filter(one_of(sessions@)).len(),
                ),
                out@.len() == before.members.take(k as int).filter(one_of(sessions@)).len(),
                forall|j: int|
                    0 <= j < out@.len() ==> (#[trigger] out@[j])@ == match line {
                        Some(text) => chat_parcel(
                            before.members.take(k as int).filter(one_of(sessions@))[j],
                            text@,
                            count_after(before.message_count, (j + 1) as nat),
                        ),
                        None => board_parcel(
                            before.members.take(k as int).filter(one_of(sessions@))[j],
                            before.game,
                        ),
                    },
            decreases before.members.len() - k,
        {
            let id = self.sessions_subscribed_to_room[k];
            proof {
                let upto = before.members.take(k as int);
                assert(before.members.take(k + 1) =~= upto.push(id));
                upto.lemma_filter_push(id, one_of(sessions@));
            }
            if position_of(sessions, id).is_some() {
                self.message_count = self.message_count.saturating_add(1);
                let delivery = match line {
                    Some(text) => chat_delivery(id, text, self.message_count),
                    None => board_delivery(id, &self.game_state),
                };
                out.push(delivery);
            }
            k += 1;
        }
        assert(before.members.take(k as int) =~= before.members);
        proof {
            match line {
                Some(text) => {
                    assert(sent(out@) =~= before.chat_parcels(sessions@, text@));
                },
                None => {
                    assert(sent(out@) =~= before.board_parcels(sessions@));
                },
            }
        }
        out
    }

    /// Sends `message` as a chat line to every member that is one of
    /// `sessions`, counting each line. A member that is not is passed over
    /// in silence.
    pub fn broadcast_chat(&mut self, sessions: &Vec<usize>, message: &str) -> (out: Vec<Delivery>)
        ensures
            final(self)@ == old(self)@.after_broadcast(sessions@),
            sent(out@) == old(self)@.chat_parcels(sessions@, message@),
    {
        self.fan_out(sessions, Some(message))
    }

    /// Sends the room's match to every member that is one of `sessions`,
    /// counting each message.
    pub fn broadcast_board(&mut self, sessions: &Vec<usize>) -> (out: Vec<Delivery>)
        ensures
            final(self)@ == old(self)@.after_broadcast(sessions@),
            sent(out@) == old(self)@.board_parcels(sessions@),
    {
        self.fan_out(sessions, None)
    }

    /// Lets `id` go: it stops being a member, with `unseat` it gives up
    /// its seat in the match, and if it was a member those who stay are
    /// told.
    pub fn leave(&mut self, id: usize, sessions: &Vec<usize>, unseat: bool) -> (out: Vec<Delivery>)
        requires
            old(self)@.members.no_duplicates(),
        ensures
            final(self)@ == departed(old(self)@, id, sessions@, unseat),
            old(self)@.wf() ==> final(self)@.wf(),
            !final(self)@.members.contains(id),
            sent(out@) == if old(self)@.members.contains(id) {
                old(self)@.without_member(id).chat_parcels(sessions@, left_notice())
            } else {
                Seq::empty()
            },
    {
        let was_member = self.remove_member(id);
        if unseat {
            self.game_state.remove_player(id);
        }
        if was_member {
            self.broadcast_chat(sessions, "Someone disconnected")
        } else {
            let out: Vec<Delivery> = Vec::new();
            assert(sent(out@) =~= Seq::empty());
            out
        }
    }
}

} // verus!
