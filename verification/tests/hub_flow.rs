use game_hub::game::{GameTurnMessage, TurnVerdict};
use game_hub::hub::{fresh_id, ChatServer, RouteStatus};
use game_hub::messages::{
    event_kind, same_text, ClientMessage, Delivery, Disconnect, EventKind, GameMessage, Join,
    JsonGeneralMessage, ListRooms,
};
use game_hub::room::{position_of, take_out, ChatRoom};

fn chat(d: &Delivery) -> (usize, String, String, usize) {
    match &d.message {
        GameMessage::Chat(c) => (d.to, c.event_type.clone(), c.content.clone(), c.message_count),
        GameMessage::Turn(_) => panic!("a board where a chat line was expected"),
    }
}

fn board(d: &Delivery) -> (usize, String, Vec<Vec<usize>>, Option<usize>, Option<usize>) {
    match &d.message {
        GameMessage::Turn(t) => (
            d.to,
            t.event_type.clone(),
            t.content.grid.clone(),
            t.content.current_player_turn,
            t.content.winner,
        ),
        GameMessage::Chat(_) => panic!("a chat line where a board was expected"),
    }
}

fn event(id: usize, event_type: &str, msg: &str, room: &str) -> ClientMessage {
    ClientMessage { id, event_type: event_type.to_owned(), msg: msg.to_owned(), room: room.to_owned() }
}

#[test]
fn hub_starts_with_the_main_room() {
    let hub = ChatServer::default();
    assert_eq!(hub.list_rooms(ListRooms), vec!["Main".to_owned()]);
    assert!(hub.sessions().is_empty());
    let main = hub.room("Main").unwrap();
    assert!(main.sessions_subscribed_to_room.is_empty());
    assert_eq!(main.message_count, 0);
    assert_eq!(main.game_state.player1, None);
    assert!(hub.room("main").is_none());
}

#[test]
fn newcomer_enters_main_and_is_not_told_of_itself() {
    let mut hub = ChatServer::default();
    let (a, first) = hub.connect_with(40);
    assert_eq!(a, 40);
    assert!(first.is_empty());
    let (b, second) = hub.connect_with(41);
    assert_eq!(b, 41);
    assert_eq!(second.len(), 1);
    assert_eq!(chat(&second[0]), (40, "chat".to_owned(), "Someone joined".to_owned(), 1));
    let (c, third) = hub.connect_with(42);
    assert_eq!(c, 42);
    assert_eq!(third.len(), 2);
    assert_eq!(chat(&third[0]), (40, "chat".to_owned(), "Someone joined".to_owned(), 2));
    assert_eq!(chat(&third[1]), (41, "chat".to_owned(), "Someone joined".to_owned(), 3));
    let main = hub.room("Main").unwrap();
    assert_eq!(main.sessions_subscribed_to_room, vec![40, 41, 42]);
    assert_eq!(main.message_count, 3);
    assert_eq!(main.game_state.player1, Some(40));
    assert_eq!(main.game_state.player2, Some(41));
    assert_eq!(main.game_state.current_player_turn, Some(40));
    assert_eq!(hub.sessions(), &vec![40, 41, 42]);
}

#[test]
fn taken_candidate_gives_the_smallest_free_identifier() {
    let mut hub = ChatServer::default();
    assert_eq!(hub.connect_with(1).0, 1);
    assert_eq!(hub.connect_with(1).0, 0);
    assert_eq!(hub.connect_with(1).0, 2);
    assert_eq!(hub.connect_with(0).0, 3);
    assert_eq!(hub.connect_with(9).0, 9);
    assert_eq!(fresh_id(&vec![0, 1, 2, 4], 4), 3);
    assert_eq!(fresh_id(&vec![0, 1, 2, 4], 7), 7);
    assert_eq!(fresh_id(&vec![], 0), 0);
    assert_eq!(fresh_id(&vec![usize::MAX], usize::MAX), 0);
}

#[test]
fn drawn_identifiers_are_pairwise_distinct() {
    let mut hub = ChatServer::default();
    let mut ids: Vec<usize> = Vec::new();
    for _ in 0..150 {
        let (id, _) = hub.connect();
        assert!(!ids.contains(&id));
        ids.push(id);
    }
    assert_eq!(hub.sessions(), &ids);
}

#[test]
fn ten_thousand_identifiers_are_pairwise_distinct() {
    let mut registered: Vec<usize> = Vec::new();
    let mut candidate: usize = 12345;
    for round in 0..10_000usize {
        candidate = candidate.wrapping_mul(6364136223846793005).wrapping_add(1442695040888963407);
        let drawn = if round % 1000 == 999 { registered[round / 2] } else { candidate };
        let id = fresh_id(&registered, drawn);
        assert!(position_of(&registered, id).is_none());
        registered.push(id);
    }
    let mut sorted = registered.clone();
    sorted.sort();
    sorted.dedup();
    assert_eq!(sorted.len(), 10_000);
}

#[test]
fn chat_goes_to_every_registered_member_and_is_counted() {
    let mut hub = ChatServer::default();
    hub.connect_with(1);
    hub.connect_with(2);
    let out = hub.send_chat("Main", "hello", 1);
    assert_eq!(out.len(), 2);
    assert_eq!(chat(&out[0]), (1, "chat".to_owned(), "hello".to_owned(), 2));
    assert_eq!(chat(&out[1]), (2, "chat".to_owned(), "hello".to_owned(), 3));
    assert_eq!(hub.room("Main").unwrap().message_count, 3);
    let none = hub.send_chat("Nowhere", "hello", 1);
    assert!(none.is_empty());
    assert_eq!(hub.list_rooms(ListRooms), vec!["Main".to_owned()]);
}

#[test]
fn member_without_a_session_is_passed_over() {
    let mut hub = ChatServer::default();
    hub.connect_with(1);
    hub.join(Join { id: 77, name: "Main".to_owned() });
    assert_eq!(hub.room("Main").unwrap().sessions_subscribed_to_room, vec![1, 77]);
    let before = hub.room("Main").unwrap().message_count;
    let out = hub.send_chat("Main", "anyone?", 1);
    assert_eq!(out.len(), 1);
    assert_eq!(chat(&out[0]).0, 1);
    assert_eq!(hub.room("Main").unwrap().message_count, before + 1);
}

#[test]
fn message_counter_stops_at_the_largest_value() {
    let mut room = ChatRoom::new();
    room.add_member(1);
    room.add_member(2);
    room.add_member(3);
    room.message_count = usize::MAX - 1;
    let out = room.broadcast_chat(&vec![3, 2, 1], "x");
    assert_eq!(out.len(), 3);
    assert_eq!(chat(&out[0]), (1, "chat".to_owned(), "x".to_owned(), usize::MAX));
    assert_eq!(chat(&out[2]), (3, "chat".to_owned(), "x".to_owned(), usize::MAX));
    assert_eq!(room.message_count, usize::MAX);
}

#[test]
fn accepted_move_is_played_and_the_board_goes_to_the_room() {
    let mut hub = ChatServer::default();
    hub.connect_with(1);
    hub.connect_with(2);
    let count = hub.room("Main").unwrap().message_count;
    let reply = hub.route_client_event(
        event(1, "move", "{\"position\":[1,2]}", "Main"),
        Some(GameTurnMessage { position: vec![1, 2] }),
    );
    assert_eq!(reply.status, RouteStatus::Move(Some(TurnVerdict::Accepted)));
    assert_eq!(reply.deliveries.len(), 2);
    let expected = vec![vec![0, 0, 0], vec![0, 0, 0], vec![0, 1, 0]];
    assert_eq!(board(&reply.deliveries[0]), (1, "board".to_owned(), expected.clone(), Some(2), None));
    assert_eq!(board(&reply.deliveries[1]), (2, "board".to_owned(), expected.clone(), Some(2), None));
    let main = hub.room("Main").unwrap();
    assert_eq!(main.game_state.grid, expected);
    assert_eq!(main.game_state.current_player_turn, Some(2));
    assert_eq!(main.message_count, count + 2);
}

#[test]
fn refused_move_leaves_the_match_and_is_reported() {
    let mut hub = ChatServer::default();
    hub.connect_with(1);
    hub.connect_with(2);
    let reply = hub.route_client_event(
        event(2, "move", "{\"position\":[0,0]}", "Main"),
        Some(GameTurnMessage { position: vec![0, 0] }),
    );
    assert_eq!(reply.status, RouteStatus::Move(Some(TurnVerdict::NotYourTurn)));
    assert_eq!(reply.deliveries.len(), 2);
    assert_eq!(
        board(&reply.deliveries[0]),
        (1, "board".to_owned(), vec![vec![0, 0, 0], vec![0, 0, 0], vec![0, 0, 0]], Some(1), None)
    );
    assert_eq!(hub.room("Main").unwrap().game_state.current_player_turn, Some(1));

    let reply = hub.route_client_event(
        event(1, "move", "{\"position\":[0,0]}", "Nowhere"),
        Some(GameTurnMessage { position: vec![0, 0] }),
    );
    assert_eq!(reply.status, RouteStatus::Move(None));
    assert!(reply.deliveries.is_empty());
    assert_eq!(hub.room("Main").unwrap().game_state.grid[0][0], 0);

    let (verdict, out) = hub.send_turn("Nowhere", GameTurnMessage { position: vec![0, 0] }, 1);
    assert_eq!(verdict, None);
    assert!(out.is_empty());
    let (verdict, _) = hub.send_turn("Main", GameTurnMessage { position: vec![5, 0] }, 1);
    assert_eq!(verdict, Some(TurnVerdict::OutOfRange));
}

#[test]
fn events_are_routed_by_their_kind() {
    let mut hub = ChatServer::default();
    hub.connect_with(1);
    let reply = hub.route_client_event(event(1, "chatmessage", "hi there", "Main"), None);
    assert_eq!(reply.status, RouteStatus::Chat);
    assert_eq!(reply.deliveries.len(), 1);
    assert_eq!(chat(&reply.deliveries[0]), (1, "chat".to_owned(), "hi there".to_owned(), 1));

    let reply = hub.route_client_event(event(1, "move", "not json", "Main"), None);
    assert_eq!(reply.status, RouteStatus::MalformedMove);
    assert!(reply.deliveries.is_empty());

    let reply = hub.route_client_event(
        event(1, "dance", "x", "Main"),
        Some(GameTurnMessage { position: vec![0, 0] }),
    );
    assert_eq!(reply.status, RouteStatus::Unsupported);
    assert!(reply.deliveries.is_empty());
    assert_eq!(hub.room("Main").unwrap().message_count, 1);
    assert_eq!(hub.room("Main").unwrap().game_state.grid[0][0], 0);

    assert_eq!(event_kind("chatmessage"), EventKind::Chat);
    assert_eq!(event_kind("move"), EventKind::Move);
    assert_eq!(event_kind("Move"), EventKind::Unsupported);
    assert_eq!(event_kind(""), EventKind::Unsupported);
    assert!(same_text("Main", "Main"));
    assert!(!same_text("Main", "Main "));
}

#[test]
fn envelope_becomes_a_client_message() {
    let envelope = JsonGeneralMessage { event_type: "move".to_owned(), data: "{\"position\":[0,1]}".to_owned() };
    let msg = envelope.into_client_message(9, "Main");
    assert_eq!(msg.id, 9);
    assert_eq!(msg.event_type, "move");
    assert_eq!(msg.msg, "{\"position\":[0,1]}");
    assert_eq!(msg.room, "Main");
}

#[test]
fn disconnect_clears_rooms_and_seat_and_tells_the_rest() {
    let mut hub = ChatServer::default();
    hub.connect_with(1);
    hub.connect_with(2);
    hub.connect_with(3);
    let count = hub.room("Main").unwrap().message_count;
    let out = hub.disconnect(Disconnect { id: 1 });
    assert_eq!(out.len(), 2);
    assert_eq!(chat(&out[0]), (2, "chat".to_owned(), "Someone disconnected".to_owned(), count + 1));
    assert_eq!(chat(&out[1]), (3, "chat".to_owned(), "Someone disconnected".to_owned(), count + 2));
    assert_eq!(hub.sessions(), &vec![2, 3]);
    let main = hub.room("Main").unwrap();
    assert_eq!(main.sessions_subscribed_to_room, vec![2, 3]);
    assert_eq!(main.game_state.player1, None);
    assert_eq!(main.game_state.player2, Some(2));
    assert_eq!(main.game_state.current_player_turn, Some(1));

    let (id, _) = hub.connect_with(50);
    assert_eq!(id, 50);
    let main = hub.room("Main").unwrap();
    assert_eq!(main.game_state.player1, Some(50));
    assert_eq!(main.game_state.player2, Some(2));
    assert_eq!(main.game_state.current_player_turn, Some(50));
}

#[test]
fn disconnect_of_an_unknown_session_does_nothing() {
    let mut hub = ChatServer::default();
    hub.connect_with(1);
    hub.join(Join { id: 8, name: "Main".to_owned() });
    let count = hub.room("Main").unwrap().message_count;
    let out = hub.disconnect(Disconnect { id: 8 });
    assert!(out.is_empty());
    assert_eq!(hub.room("Main").unwrap().sessions_subscribed_to_room, vec![1, 8]);
    assert_eq!(hub.room("Main").unwrap().message_count, count);
    assert_eq!(hub.sessions(), &vec![1]);
}

#[test]
fn disconnect_reaches_a_seat_in_a_room_that_was_left() {
    let mut hub = ChatServer::default();
    hub.connect_with(1);
    hub.connect_with(2);
    hub.join(Join { id: 1, name: "Side".to_owned() });
    assert_eq!(hub.room("Main").unwrap().game_state.player1, Some(1));
    let out = hub.disconnect(Disconnect { id: 1 });
    assert!(out.is_empty());
    assert_eq!(hub.room("Main").unwrap().game_state.player1, None);
    assert!(hub.room("Side").unwrap().sessions_subscribed_to_room.is_empty());
}

#[test]
fn joining_an_unknown_room_creates_it_once() {
    let mut hub = ChatServer::default();
    hub.connect_with(1);
    hub.connect_with(2);
    let count = hub.room("Main").unwrap().message_count;
    let out = hub.join(Join { id: 1, name: "Den".to_owned() });
    assert_eq!(out.len(), 1);
    assert_eq!(chat(&out[0]), (2, "chat".to_owned(), "Someone disconnected".to_owned(), count + 1));
    assert_eq!(hub.list_rooms(ListRooms), vec!["Main".to_owned(), "Den".to_owned()]);
    assert_eq!(hub.room("Main").unwrap().sessions_subscribed_to_room, vec![2]);
    assert_eq!(hub.room("Den").unwrap().sessions_subscribed_to_room, vec![1]);
    assert_eq!(hub.room("Den").unwrap().message_count, 0);
    assert_eq!(hub.room("Den").unwrap().game_state.player1, None);
    assert_eq!(hub.room("Main").unwrap().game_state.player1, Some(1));

    let out = hub.join(Join { id: 2, name: "Den".to_owned() });
    assert_eq!(out.len(), 1);
    assert_eq!(chat(&out[0]), (1, "chat".to_owned(), "Someone connected".to_owned(), 1));
    let names = hub.list_rooms(ListRooms);
    assert_eq!(names.iter().filter(|n| n.as_str() == "Den").count(), 1);
    assert_eq!(names.len(), 2);
    assert_eq!(hub.room("Den").unwrap().sessions_subscribed_to_room, vec![1, 2]);
    assert!(hub.room("Main").unwrap().sessions_subscribed_to_room.is_empty());
}

#[test]
fn joining_the_room_one_is_in_tells_it_twice() {
    let mut hub = ChatServer::default();
    hub.connect_with(1);
    hub.connect_with(2);
    let count = hub.room("Main").unwrap().message_count;
    let out = hub.join(Join { id: 2, name: "Main".to_owned() });
    assert_eq!(out.len(), 2);
    assert_eq!(chat(&out[0]), (1, "chat".to_owned(), "Someone disconnected".to_owned(), count + 1));
    assert_eq!(chat(&out[1]), (1, "chat".to_owned(), "Someone connected".to_owned(), count + 2));
    assert_eq!(hub.room("Main").unwrap().sessions_subscribed_to_room, vec![1, 2]);
}

#[test]
fn members_are_kept_once_and_in_order() {
    let mut room = ChatRoom::new();
    room.add_member(5);
    room.add_member(6);
    room.add_member(5);
    assert_eq!(room.sessions_subscribed_to_room, vec![5, 6]);
    assert!(room.remove_member(5));
    assert!(!room.remove_member(5));
    assert_eq!(room.sessions_subscribed_to_room, vec![6]);
    let mut items = vec![3, 1, 2];
    assert_eq!(position_of(&items, 2), Some(2));
    assert_eq!(position_of(&items, 9), None);
    assert!(take_out(&mut items, 1));
    assert_eq!(items, vec![3, 2]);
}

#[test]
fn leaving_a_room_with_a_seat_gives_it_up_only_on_request() {
    let mut room = ChatRoom::new();
    room.add_member(1);
    room.add_member(2);
    room.game_state.add_player(1);
    let out = room.leave(1, &vec![1, 2], false);
    assert_eq!(out.len(), 1);
    assert_eq!(chat(&out[0]), (2, "chat".to_owned(), "Someone disconnected".to_owned(), 1));
    assert_eq!(room.game_state.player1, Some(1));
    let out = room.leave(1, &vec![1, 2], true);
    assert!(out.is_empty());
    assert_eq!(room.game_state.player1, None);
    assert_eq!(room.message_count, 1);
    let boards = room.broadcast_board(&vec![2]);
    assert_eq!(boards.len(), 1);
    assert_eq!(room.message_count, 2);
}

#[test]
fn connecting_to_a_full_match_leaves_it_alone() {
    let mut hub = ChatServer::default();
    hub.connect_with(1);
    hub.connect_with(2);
    let (verdict, _) = hub.send_turn("Main", GameTurnMessage { position: vec![0, 0] }, 1);
    assert_eq!(verdict, Some(TurnVerdict::Accepted));
    assert_eq!(hub.room("Main").unwrap().game_state.current_player_turn, Some(2));

    let (c, _) = hub.connect_with(3);
    assert_eq!(c, 3);
    let main = hub.room("Main").unwrap();
    assert_eq!(main.sessions_subscribed_to_room, vec![1, 2, 3]);
    assert_eq!(main.game_state.player1, Some(1));
    assert_eq!(main.game_state.player2, Some(2));
    assert_eq!(main.game_state.current_player_turn, Some(2));
    assert_eq!(main.game_state.grid, vec![vec![1, 0, 0], vec![0, 0, 0], vec![0, 0, 0]]);
    assert_eq!(main.game_state.winner, None);

    let (again, _) = hub.send_turn("Main", GameTurnMessage { position: vec![1, 0] }, 1);
    assert_eq!(again, Some(TurnVerdict::NotYourTurn));
    let (spectator, _) = hub.send_turn("Main", GameTurnMessage { position: vec![1, 0] }, 3);
    assert_eq!(spectator, Some(TurnVerdict::NotYourTurn));
    let (second, _) = hub.send_turn("Main", GameTurnMessage { position: vec![1, 1] }, 2);
    assert_eq!(second, Some(TurnVerdict::Accepted));
    assert_eq!(hub.room("Main").unwrap().game_state.current_player_turn, Some(1));
}

#[test]
fn seat_freed_by_a_disconnect_goes_to_the_next_newcomer_only() {
    let mut hub = ChatServer::default();
    hub.connect_with(1);
    hub.connect_with(2);
    hub.connect_with(3);
    hub.disconnect(Disconnect { id: 2 });
    let main = hub.room("Main").unwrap();
    assert_eq!(main.game_state.player1, Some(1));
    assert_eq!(main.game_state.player2, None);
    hub.connect_with(4);
    hub.connect_with(5);
    let main = hub.room("Main").unwrap();
    assert_eq!(main.game_state.player1, Some(1));
    assert_eq!(main.game_state.player2, Some(4));
    assert_eq!(main.game_state.current_player_turn, Some(1));
    assert_eq!(main.sessions_subscribed_to_room, vec![1, 3, 4, 5]);
}
