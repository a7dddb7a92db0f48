//! The messages that travel between the sessions and the hub.

use vstd::prelude::*;
use crate::game::{GameView, TicTacToeGame};

verus! {

/// The envelope of every inbound event: its kind, and a payload that the
/// kind gives a meaning to.
#[derive(Debug)]
pub struct JsonGeneralMessage {
    pub event_type: String,
    pub data: String,
}

/// A chat line as a session receives it.
#[derive(Debug)]
pub struct ChatMessage {
    pub event_type: String,
    pub content: String,
    pub message_count: usize,
}

/// The state of a room's match as a session receives it.
#[derive(Debug)]
pub struct GameStateMessage {
    pub event_type: String,
    pub content: TicTacToeGame,
}

/// What the hub sends to a session.
#[derive(Debug)]
pub enum GameMessage {
    Chat(ChatMessage),
    Turn(GameStateMessage),
}

/// A session has gone.
#[derive(Debug)]
pub struct Disconnect {
    pub id: usize,
}

/// An event from a session, addressed to a room.
#[derive(Debug)]
pub struct ClientMessage {
    /// The session that sent it.
    pub id: usize,
    /// `"chatmessage"` or `"move"`.
    pub event_type: String,
    /// The chat text, or the move as the client encoded it.
    pub msg: String,
    /// The room's name.
    pub room: String,
}

/// A request for the names of the rooms.
#[derive(Debug)]
pub struct ListRooms;

/// A session asks to enter a room, which is created if it does not exist.
#[derive(Debug)]
pub struct Join {
    pub id: usize,
    pub name: String,
}

/// One message for one session. The hub hands these to its caller, who
/// pushes each to the session's connection, or drops it if that is gone.
#[derive(Debug)]
pub struct Delivery {
    pub to: usize,
    pub message: GameMessage,
}

/// The mathematical value of a delivery.
pub enum Sent {
    Chat { to: usize, event_type: Seq<char>, content: Seq<char>, message_count: usize },
    Board { to: usize, event_type: Seq<char>, game: GameView },
}

/// The kinds of event that the hub tells apart.
#[derive(Clone, Copy, Debug, PartialEq, Eq, Structural)]
pub enum EventKind {
    Chat,
    Move,
    Unsupported,
}

impl View for Delivery {
    type V = Sent;

    open spec fn view(&self) -> Sent {
        match self.message {
            GameMessage::Chat(c) => Sent::Chat {
                to: self.to,
                event_type: c.event_type@,
                content: c.content@,
                message_count: c.message_count,
            },
            GameMessage::Turn(t) => Sent::Board {
                to: self.to,
                event_type: t.event_type@,
                game: t.content@,
            },
        }
    }
}

/// The values of a list of deliveries, in order.
pub open spec fn sent(out: Seq<Delivery>) -> Seq<Sent> {
    out.map_values(|d: Delivery| d@)
}

/// A chat line for `to`, tagged `"chat"`.
pub open spec fn chat_parcel(to: usize, content: Seq<char>, message_count: usize) -> Sent {
    Sent::Chat { to, event_type: "chat"@, content, message_count }
}

/// A board update for `to`, tagged `"board"`.
pub open spec fn board_parcel(to: usize, game: GameView) -> Sent {
    Sent::Board { to, event_type: "board"@, game }
}

/// The kind that an event's tag names.
pub open spec fn spec_event_kind(event_type: Seq<char>) -> EventKind {
    if event_type == "chatmessage"@ {
        EventKind::Chat
    } else if event_type == "move"@ {
        EventKind::Move
    } else {
        EventKind::Unsupported
    }
}

/// Whether two strings hold the same text.
pub fn same_text(a: &str, b: &str) -> (same: bool)
    ensures
        same == (a@ == b@),
{
    a.to_owned() == b.to_owned()
}

/// Tells a chat line from a move, and both from anything else.
pub fn event_kind(event_type: &str) -> (kind: EventKind)
    ensures
        kind == spec_event_kind(event_type@),
{
    if same_text(event_type, "chatmessage") {
        EventKind::Chat
    } else if same_text(event_type, "move") {
        EventKind::Move
    } else {
        EventKind::Unsupported
    }
}

/// A chat line for `to`.
pub fn chat_delivery(to: usize, content: &str, message_count: usize) -> (d: Delivery)
    ensures
        d@ == chat_parcel(to, content@, message_count),
{
    Delivery {
        to,
        message: GameMessage::Chat(
            ChatMessage { event_type: "chat".to_owned(), content: content.to_owned(), message_count },
        ),
    }
}

/// A board update for `to`.
pub fn board_delivery(to: usize, game: &TicTacToeGame) -> (d: Delivery)
    ensures
        d@ == board_parcel(to, game@),
{
    Delivery {
        to,
        message: GameMessage::Turn(
            GameStateMessage { event_type: "board".to_owned(), content: game.clone() },
        ),
    }
}

impl JsonGeneralMessage {
    /// The event that session `id`, standing in `room`, submits with this
    /// envelope: tag and payload as they came.
    pub fn into_client_message(self, id: usize, room: &str) -> (msg: ClientMessage)
        ensures
            msg.id == id,
            msg.event_type@ == self.event_type@,
            msg.msg@ == self.data@,
            msg.room@ == room@,
    {
        ClientMessage { id, event_type: self.event_type, msg: self.data, room: room.to_owned() }
    }
}

} // verus!
