//! A hub for rooms in which connected sessions chat and play a two-player
//! grid game. The crate holds the game rules, the rooms and the coordinator
//! that routes events; delivery itself is left to the caller, who receives
//! the list of messages to push.

pub mod game;
pub mod messages;
pub mod room;
pub mod random;
pub mod hub;
