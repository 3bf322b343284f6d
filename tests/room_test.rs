use uno::game::events::GameEvent;
use uno::game::{Color, Number, UnoCard};
use uno::protocol::{Client2Server, Server2Client};
use uno::registry::{route_message, Registry, Route};
use uno::room::{Outgoing, Room, RoomCmd, IDLE_SECS};

fn join(room: &mut Room, conn: u64, name: &str, now: u64) -> Vec<Outgoing> {
    room.handle(RoomCmd::Join { conn_id: conn, name: name.to_string() }, now)
}

fn msg(room: &mut Room, conn: u64, m: Client2Server, now: u64) -> Vec<Outgoing> {
    room.handle(RoomCmd::GameMsg { conn_id: conn, msg: m }, now)
}

fn is_error_to(out: &[Outgoing], conn: u64) -> bool {
    out.len() == 1 && matches!(&out[0], Outgoing::ToOne(c, Server2Client::ServerError { .. }) if *c == conn)
}

fn snapshots(out: &[Outgoing]) -> usize {
    out.iter().filter(|o| matches!(o, Outgoing::ToAll(Server2Client::SharedState { .. }))).count()
}

#[test]
fn join_welcomes_and_resyncs() {
    let mut room = Room::new("lobby".to_string(), 10);
    let out = join(&mut room, 7, "Alice", 11);
    assert_eq!(out.len(), 4);
    match &out[0] {
        Outgoing::ToOne(7, Server2Client::Welcome { player_id, session_id }) => {
            assert_eq!(*player_id, 0);
            assert_eq!(session_id, "lobby-0");
        },
        _ => panic!("no welcome"),
    }
    assert!(matches!(&out[1], Outgoing::ToAll(Server2Client::Events(ev))
        if matches!(&ev[..], [GameEvent::PlayerJoined { player_id: 0, .. }])));
    assert_eq!(snapshots(&out), 1);
    assert!(matches!(&out[3], Outgoing::ToOne(7, Server2Client::PlayerState { player_id: 0, .. })));
    let out = join(&mut room, 8, "Bob", 12);
    assert!(matches!(&out[0], Outgoing::ToOne(8, Server2Client::Welcome { player_id: 1, .. })));
    assert_eq!(out.len(), 5);
    assert_eq!(room.last_active, 12);
}

#[test]
fn start_and_play_resync_everyone_once() {
    let mut room = Room::new("r".to_string(), 0);
    join(&mut room, 1, "A", 1);
    join(&mut room, 2, "B", 2);
    let out = msg(&mut room, 2, Client2Server::StartGame { player_id: 0 }, 3);
    assert!(is_error_to(&out, 2));
    assert!(!room.game.started);
    let out = msg(&mut room, 1, Client2Server::StartGame { player_id: 0 }, 4);
    assert!(room.game.started);
    assert_eq!(snapshots(&out), 1);
    assert_eq!(out.len(), 1 + 3);
    assert!(matches!(&out[0], Outgoing::ToAll(Server2Client::Events(_))));
    let out = msg(&mut room, 1, Client2Server::StartGame { player_id: 0 }, 5);
    assert!(is_error_to(&out, 1));

    // both members see one identical public snapshot after each command
    let out = msg(&mut room, 2, Client2Server::PassTurn { player_id: 1 }, 6);
    assert!(is_error_to(&out, 2));
    let out = msg(&mut room, 1, Client2Server::PassTurn { player_id: 0 }, 7);
    assert_eq!(snapshots(&out), 1);
    assert_eq!(room.game.current_player, 1);
    let out = msg(&mut room, 2, Client2Server::DrawCard { player_id: 1, count: 0 }, 8);
    assert_eq!(snapshots(&out), 1);
    assert_eq!(out.len(), 1 + 3);
}

#[test]
fn play_checks_and_errors() {
    let mut room = Room::new("r".to_string(), 0);
    join(&mut room, 1, "A", 1);
    join(&mut room, 2, "B", 1);
    let play = Client2Server::PlayCard { player_id: 0, card_index: 0, color: Color::RED, call_uno: false };
    assert!(is_error_to(&msg(&mut room, 1, play.clone(), 2), 1));
    msg(&mut room, 1, Client2Server::StartGame { player_id: 0 }, 3);
    assert!(is_error_to(&msg(&mut room, 2, play.clone(), 4), 2));
    let other = Client2Server::PlayCard { player_id: 1, card_index: 0, color: Color::RED, call_uno: false };
    assert!(is_error_to(&msg(&mut room, 2, other, 5), 2));
    assert!(is_error_to(&msg(&mut room, 1, Client2Server::JoinGame { room_id: "r".into(), name: "A".into() }, 6), 1));
    assert!(is_error_to(
        &msg(&mut room, 1, Client2Server::ChallengeWildDrawFour { challenger_id: 0, challenged_id: 1 }, 7),
        1
    ));
    assert!(msg(&mut room, 99, Client2Server::PassTurn { player_id: 0 }, 8).is_empty());
}

#[test]
fn game_over_puts_fresh_table_in_lobby() {
    let mut room = Room::new("r".to_string(), 0);
    join(&mut room, 1, "A", 1);
    join(&mut room, 2, "B", 1);
    msg(&mut room, 1, Client2Server::StartGame { player_id: 0 }, 2);
    let red = UnoCard::NumberCard(Color::RED, Number::FIVE);
    room.game.top_card = Some(red);
    room.game.current_player = 0;
    let extra = room.game.players[0].hand.split_off(1);
    room.game.deck.cards.extend(extra);
    room.game.players[0].hand[0] = UnoCard::NumberCard(Color::RED, Number::ONE);
    let out = msg(
        &mut room,
        1,
        Client2Server::PlayCard { player_id: 0, card_index: 0, color: Color::RED, call_uno: false },
        3,
    );
    assert!(matches!(&out[0], Outgoing::ToAll(Server2Client::Events(ev))
        if ev.iter().any(|e| matches!(e, GameEvent::GameOver { winner: 0, .. }))));
    assert_eq!(snapshots(&out), 1);
    assert!(!room.game.started);
    assert!(room.game.players.is_empty());
    assert_eq!(room.game.deck.cards.len(), 108);
    let out = msg(&mut room, 2, Client2Server::StartGame { player_id: 1 }, 4);
    assert!(room.game.started);
    assert_eq!(snapshots(&out), 1);
}

#[test]
fn leave_marks_member_disconnected_and_idle_room_closes_once() {
    let mut room = Room::new("r".to_string(), 100);
    join(&mut room, 1, "A", 100);
    assert!(room.handle(RoomCmd::Leave { conn_id: 1 }, 101).is_empty());
    assert_eq!(room.members.len(), 1);
    assert!(!room.members[0].connected);
    assert!(!room.on_tick(101 + IDLE_SECS));
    assert!(room.idle_expired(102 + IDLE_SECS));
    assert!(room.on_tick(102 + IDLE_SECS));
    assert!(room.closed);
    assert!(!room.on_tick(500));
    assert!(join(&mut room, 2, "B", 501).is_empty());
    assert_eq!(room.members.len(), 1);
}

#[test]
fn connected_room_never_idles() {
    let mut room = Room::new("r".to_string(), 0);
    join(&mut room, 1, "A", 0);
    assert!(!room.on_tick(1000));
    assert_eq!(room.connected_count(), 1);
}

#[test]
fn registry_get_or_create_and_remove_once() {
    let mut reg = Registry::new();
    let (h1, created1) = reg.get_or_create("alpha");
    let (h2, created2) = reg.get_or_create("alpha");
    let (h3, created3) = reg.get_or_create("beta");
    assert!(created1);
    assert!(!created2);
    assert!(created3);
    assert_eq!(h1, h2);
    assert_ne!(h1, h3);
    assert_eq!(reg.lookup("beta"), Some(h3));
    assert!(reg.remove("alpha"));
    assert!(!reg.remove("alpha"));
    assert_eq!(reg.lookup("alpha"), None);
    assert_eq!(reg.lookup("beta"), Some(h3));
    let (h4, created4) = reg.get_or_create("alpha");
    assert!(created4);
    assert_ne!(h4, h1);
}

#[test]
fn routing_of_first_and_later_messages() {
    let join = Client2Server::JoinGame { room_id: "r".into(), name: "A".into() };
    match route_message(false, join.clone()) {
        Route::Join { room_id, name } => {
            assert_eq!(room_id, "r");
            assert_eq!(name, "A");
        },
        _ => panic!("first join not taken"),
    }
    assert!(matches!(route_message(true, join), Route::Reject(_)));
    assert!(matches!(route_message(false, Client2Server::PassTurn { player_id: 0 }), Route::Reject(_)));
    assert!(matches!(
        route_message(true, Client2Server::PassTurn { player_id: 0 }),
        Route::Forward(Client2Server::PassTurn { player_id: 0 })
    ));
}

#[test]
fn each_draw_is_its_own_round() {
    let mut room = Room::new("r".to_string(), 0);
    join(&mut room, 1, "A", 1);
    join(&mut room, 2, "B", 1);
    msg(&mut room, 1, Client2Server::StartGame { player_id: 0 }, 2);
    let out = msg(&mut room, 1, Client2Server::DrawCard { player_id: 0, count: 2 }, 3);
    assert_eq!(snapshots(&out), 2);
    assert_eq!(out.len(), 2 * (1 + 3));
    assert!(matches!(&out[0], Outgoing::ToAll(Server2Client::Events(_))));
    assert!(matches!(&out[1], Outgoing::ToAll(Server2Client::SharedState { .. })));
    assert!(matches!(&out[4], Outgoing::ToAll(Server2Client::Events(_))));
}

#[test]
fn session_ids_carry_room_and_player() {
    let mut room = Room::new("table-7".to_string(), 0);
    join(&mut room, 1, "A", 0);
    let out = join(&mut room, 2, "B", 0);
    assert!(matches!(&out[0], Outgoing::ToOne(2, Server2Client::Welcome { session_id, .. }) if session_id == "table-7-1"));
}
