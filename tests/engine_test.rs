use uno::game::events::GameEvent;
use uno::game::player::Player;
use uno::game::{Action, Color, Number, UnoCard, UnoDeck, UnoGame, WildType};

fn num(c: Color, n: u8) -> UnoCard {
    UnoCard::NumberCard(c, Number::from_u8(n).unwrap())
}

fn table(hands: Vec<Vec<UnoCard>>, top: Option<UnoCard>, deck: Vec<UnoCard>, clockwise: bool) -> UnoGame {
    let players = hands
        .into_iter()
        .enumerate()
        .map(|(i, hand)| Player { name: format!("P{}", i), hand, id: i })
        .collect();
    UnoGame {
        deck: UnoDeck { cards: deck },
        players,
        current_player: 0,
        top_card: top,
        direction: clockwise,
        started: true,
    }
}

fn card_count(g: &UnoGame) -> usize {
    g.deck.cards.len()
        + g.players.iter().map(|p| p.hand.len()).sum::<usize>()
        + if g.top_card.is_some() { 1 } else { 0 }
}

fn last_turn(ev: &[GameEvent]) -> usize {
    match ev.last() {
        Some(GameEvent::PlayerTurn { player_id }) => *player_id,
        _ => panic!("batch does not end with a turn"),
    }
}

fn count<F: Fn(&GameEvent) -> bool>(ev: &[GameEvent], f: F) -> usize {
    ev.iter().filter(|e| f(e)).count()
}

fn filler(n: usize) -> Vec<UnoCard> {
    (0..n).map(|i| num(Color::GREEN, (i % 10) as u8)).collect()
}

#[test]
fn new_game_holds_full_shuffled_deck() {
    let g = UnoGame::new();
    assert_eq!(g.deck.cards.len(), 108);
    let mut shuffled = g.deck.cards.clone();
    let mut fresh = UnoDeck::new().cards;
    let key = |c: &UnoCard| format!("{:?}", c);
    shuffled.sort_by_key(key);
    fresh.sort_by_key(key);
    assert_eq!(shuffled, fresh);
    assert!(!g.started);
    assert!(g.direction);
}

#[test]
fn fresh_deck_composition() {
    let d = UnoDeck::new();
    assert_eq!(d.cards.len(), 108);
    assert_eq!(d.cards.iter().filter(|c| matches!(c, UnoCard::NumberCard(..))).count(), 76);
    assert_eq!(d.cards.iter().filter(|c| matches!(c, UnoCard::ActionCard(..))).count(), 24);
    assert_eq!(d.cards.iter().filter(|c| matches!(c, UnoCard::WildCard(None, _))).count(), 8);
    assert_eq!(d.cards.iter().filter(|c| **c == num(Color::RED, 0)).count(), 1);
    assert_eq!(d.cards.iter().filter(|c| **c == num(Color::YELLOW, 9)).count(), 2);
    assert_eq!(d.cards[0], num(Color::RED, 0));
    assert_eq!(d.cards[19], num(Color::GREEN, 0));
    assert_eq!(d.cards[76], UnoCard::ActionCard(Color::RED, Action::SKIP));
    assert_eq!(d.cards[100], UnoCard::WildCard(None, WildType::WILD));
}

#[test]
fn shuffle_keeps_the_cards() {
    let mut d = UnoDeck::new();
    let before = d.cards.clone();
    d.shuffle();
    assert_eq!(d.cards.len(), 108);
    let key = |c: &UnoCard| format!("{:?}", c);
    let mut a = before.clone();
    let mut b = d.cards.clone();
    a.sort_by_key(key);
    b.sort_by_key(key);
    assert_eq!(a, b);
}

#[test]
fn init_three_players_scenario() {
    let mut g = UnoGame::new();
    let ev = g.init_game(vec!["Alice".into(), "Bob".into(), "Charlie".into()]);
    assert_eq!(count(&ev, |e| matches!(e, GameEvent::PlayerJoined { .. })), 3);
    assert_eq!(count(&ev, |e| matches!(e, GameEvent::CardDraw { .. })), 21);
    let tops: Vec<&GameEvent> = ev.iter().filter(|e| matches!(e, GameEvent::TopCardChanged { .. })).collect();
    assert_eq!(tops.len(), 1);
    assert!(matches!(tops[0], GameEvent::TopCardChanged { top_card: UnoCard::NumberCard(..) }));
    assert!(ev.iter().any(|e| matches!(e, GameEvent::PlayerTurn { player_id: 0 })));
    for p in &g.players {
        assert_eq!(p.hand.len(), 7);
    }
    assert_eq!(g.players[1].name, "Bob");
    assert!(g.started);
    assert_eq!(card_count(&g), 108);
}

#[test]
fn init_refused_when_started_or_empty() {
    let mut g = UnoGame::new();
    let ev = g.init_game(vec![]);
    assert_eq!(ev.len(), 1);
    assert!(matches!(ev[0], GameEvent::GameError { .. }));
    assert!(!g.started);
    g.init_game(vec!["A".into(), "B".into()]);
    let ev = g.init_game(vec!["C".into()]);
    assert_eq!(ev.len(), 1);
    assert!(matches!(ev[0], GameEvent::GameError { .. }));
    assert_eq!(g.players.len(), 2);
}

#[test]
fn card_count_stays_108_through_play() {
    let mut g = UnoGame::new();
    g.init_game(vec!["A".into(), "B".into(), "C".into(), "D".into()]);
    assert_eq!(card_count(&g), 108);
    for _ in 0..200 {
        if !g.started {
            break;
        }
        let cur = g.current_player;
        let hand = g.get_player_hand(cur);
        let mut played = false;
        for i in 0..hand.len() {
            let ev = g.play_card(cur, i, hand.len() == 2, Color::BLUE);
            if !matches!(ev[0], GameEvent::GameError { .. }) {
                played = true;
                break;
            }
        }
        if !played {
            g.draw_card(cur);
            if g.current_player == cur {
                g.player_pass(cur);
            }
        }
        assert_eq!(card_count(&g), 108);
    }
}

#[test]
fn skip_clockwise_scenario() {
    let hands = vec![
        vec![UnoCard::ActionCard(Color::RED, Action::SKIP), num(Color::BLUE, 1), num(Color::BLUE, 2)],
        filler(3),
        filler(3),
        filler(3),
    ];
    let mut g = table(hands, Some(num(Color::RED, 5)), filler(20), true);
    let ev = g.play_card(0, 0, false, Color::RED);
    assert!(ev.iter().any(|e| matches!(e, GameEvent::PlayerSkipped { player_id: 1 })));
    assert_eq!(last_turn(&ev), 2);
    assert_eq!(g.current_player, 2);
}

#[test]
fn skip_counter_clockwise_scenario() {
    let hands = vec![
        vec![UnoCard::ActionCard(Color::RED, Action::SKIP), num(Color::BLUE, 1), num(Color::BLUE, 2)],
        filler(3),
        filler(3),
        filler(3),
    ];
    let mut g = table(hands, Some(num(Color::RED, 5)), filler(20), false);
    let ev = g.play_card(0, 0, false, Color::RED);
    assert!(ev.iter().any(|e| matches!(e, GameEvent::PlayerSkipped { player_id: 3 })));
    assert_eq!(last_turn(&ev), 2);
}

#[test]
fn reverse_scenario() {
    let hands = vec![
        vec![UnoCard::ActionCard(Color::RED, Action::REVERSE), num(Color::BLUE, 1), num(Color::BLUE, 2)],
        filler(3),
        filler(3),
        filler(3),
    ];
    let mut g = table(hands, Some(num(Color::RED, 5)), filler(20), true);
    let ev = g.play_card(0, 0, false, Color::RED);
    assert!(ev.iter().any(|e| matches!(e, GameEvent::DirectionChanged { clockwise: false })));
    assert_eq!(last_turn(&ev), 3);
    assert!(!g.direction);
}

#[test]
fn draw_two_and_wild_draw_four() {
    let hands = vec![
        vec![UnoCard::ActionCard(Color::RED, Action::DRAWTWO), UnoCard::WildCard(None, WildType::DRAWFOUR), num(Color::BLUE, 1)],
        filler(3),
        filler(3),
    ];
    let mut g = table(hands, Some(num(Color::RED, 5)), filler(20), true);
    let ev = g.play_card(0, 0, false, Color::RED);
    assert!(ev.iter().any(|e| matches!(e, GameEvent::DrawTwoApplied { target_player_id: 1 })));
    assert_eq!(count(&ev, |e| matches!(e, GameEvent::CardDraw { player_id: 1, .. })), 2);
    assert_eq!(g.players[1].hand.len(), 5);
    assert_eq!(g.current_player, 2);
    // the red five went back under the deck
    assert_eq!(g.deck.cards[0], num(Color::RED, 5));

    let mut g = table(
        vec![vec![UnoCard::WildCard(None, WildType::DRAWFOUR), num(Color::BLUE, 1), num(Color::BLUE, 2)], filler(3), filler(3)],
        Some(num(Color::RED, 5)),
        filler(20),
        true,
    );
    let ev = g.play_card(0, 0, false, Color::YELLOW);
    assert!(ev.iter().any(|e| matches!(e, GameEvent::DrawFourApplied { target_player_id: 1 })));
    assert_eq!(g.players[1].hand.len(), 7);
    assert_eq!(g.top_card, Some(UnoCard::WildCard(Some(Color::YELLOW), WildType::DRAWFOUR)));
    assert_eq!(g.current_player, 2);
}

#[test]
fn played_wild_returns_uncolored_under_the_deck() {
    let mut g = table(
        vec![vec![num(Color::YELLOW, 4), num(Color::BLUE, 1), num(Color::BLUE, 2)], filler(3)],
        Some(UnoCard::WildCard(Some(Color::YELLOW), WildType::WILD)),
        filler(5),
        true,
    );
    let before = card_count(&g);
    g.play_card(0, 0, false, Color::RED);
    assert_eq!(g.deck.cards[0], UnoCard::WildCard(None, WildType::WILD));
    assert_eq!(card_count(&g), before);
}

#[test]
fn uno_penalty_when_not_called() {
    let hands = vec![vec![num(Color::RED, 1), num(Color::BLUE, 2)], filler(3)];
    let mut g = table(hands, Some(num(Color::RED, 5)), filler(10), true);
    let ev = g.play_card(0, 0, false, Color::RED);
    assert!(ev.iter().any(|e| matches!(e, GameEvent::UnoPenalty { player_id: 0 })));
    assert!(!ev.iter().any(|e| matches!(e, GameEvent::UnoCalled { .. })));
    assert_eq!(g.players[0].hand.len(), 3);
}

#[test]
fn uno_penalty_when_called_too_early() {
    let hands = vec![vec![num(Color::RED, 1), num(Color::BLUE, 2), num(Color::BLUE, 3)], filler(3)];
    let mut g = table(hands, Some(num(Color::RED, 5)), filler(10), true);
    let ev = g.play_card(0, 0, true, Color::RED);
    assert!(ev.iter().any(|e| matches!(e, GameEvent::UnoPenalty { player_id: 0 })));
    assert!(!ev.iter().any(|e| matches!(e, GameEvent::UnoCalled { .. })));
    assert_eq!(g.players[0].hand.len(), 4);
}

#[test]
fn uno_called_rightly() {
    let hands = vec![vec![num(Color::RED, 1), num(Color::BLUE, 2)], filler(3)];
    let mut g = table(hands, Some(num(Color::RED, 5)), filler(10), true);
    let ev = g.play_card(0, 0, true, Color::RED);
    assert!(ev.iter().any(|e| matches!(e, GameEvent::UnoCalled { player_id: 0 })));
    assert!(!ev.iter().any(|e| matches!(e, GameEvent::UnoPenalty { .. })));
    assert_eq!(g.players[0].hand.len(), 1);
    assert_eq!(last_turn(&ev), 1);
}

#[test]
fn no_call_with_several_cards_is_quiet() {
    let hands = vec![vec![num(Color::RED, 1), num(Color::BLUE, 2), num(Color::BLUE, 3)], filler(3)];
    let mut g = table(hands, Some(num(Color::RED, 5)), filler(10), true);
    let ev = g.play_card(0, 0, false, Color::RED);
    assert!(!ev.iter().any(|e| matches!(e, GameEvent::UnoPenalty { .. } | GameEvent::UnoCalled { .. })));
    assert_eq!(ev.len(), 3);
}

#[test]
fn winning_play_scores() {
    let hands = vec![
        vec![num(Color::RED, 7)],
        vec![num(Color::BLUE, 3), UnoCard::ActionCard(Color::GREEN, Action::SKIP)],
        vec![UnoCard::WildCard(None, WildType::WILD)],
        vec![num(Color::YELLOW, 9), num(Color::YELLOW, 0)],
    ];
    let mut g = table(hands, Some(num(Color::RED, 5)), filler(10), true);
    let ev = g.play_card(0, 0, true, Color::RED);
    assert_eq!(count(&ev, |e| matches!(e, GameEvent::GameOver { .. })), 1);
    match ev.last() {
        Some(GameEvent::GameOver { winner, scores }) => {
            assert_eq!(*winner, 0);
            let pts: Vec<i32> = scores.iter().map(|s| s.1).collect();
            assert_eq!(pts, vec![0, 9, 23, 50]);
            assert_eq!(pts.iter().sum::<i32>(), 82);
            assert_eq!(scores[0].0, "P0");
            assert_eq!(scores[3].0, "P2");
        },
        _ => panic!("no game over"),
    }
    assert!(!ev.iter().any(|e| matches!(e, GameEvent::UnoPenalty { .. })));
    assert!(!g.started);
}

#[test]
fn equal_scores_keep_seat_order() {
    let hands = vec![vec![num(Color::RED, 7)], vec![num(Color::BLUE, 3)], vec![num(Color::GREEN, 3)]];
    let mut g = table(hands, Some(num(Color::RED, 5)), filler(10), true);
    let ev = g.play_card(0, 0, false, Color::RED);
    match ev.last() {
        Some(GameEvent::GameOver { scores, .. }) => {
            assert_eq!(scores[1], ("P1".to_string(), 3));
            assert_eq!(scores[2], ("P2".to_string(), 3));
        },
        _ => panic!("no game over"),
    }
}

#[test]
fn play_errors() {
    let hands = vec![vec![num(Color::GREEN, 1), num(Color::BLUE, 2)], filler(3)];
    let mut g = table(hands, Some(num(Color::RED, 5)), filler(10), true);
    let ev = g.play_card(1, 0, false, Color::RED);
    assert!(ev.len() == 1 && matches!(ev[0], GameEvent::GameError { .. }));
    let ev = g.play_card(0, 5, false, Color::RED);
    assert!(ev.len() == 1 && matches!(ev[0], GameEvent::GameError { .. }));
    let ev = g.play_card(0, 0, false, Color::RED);
    assert!(ev.len() == 1 && matches!(ev[0], GameEvent::GameError { .. }));
    assert_eq!(g.players[0].hand.len(), 2);
    assert_eq!(g.top_card, Some(num(Color::RED, 5)));
    let mut lobby = UnoGame::new();
    let ev = lobby.play_card(0, 0, false, Color::RED);
    assert!(ev.len() == 1 && matches!(ev[0], GameEvent::GameError { .. }));
}

#[test]
fn draw_playable_card() {
    let hands = vec![vec![num(Color::GREEN, 1)], filler(3)];
    let mut g = table(hands, Some(num(Color::RED, 5)), vec![num(Color::RED, 2)], true);
    let ev = g.draw_card(0);
    assert_eq!(ev.len(), 2);
    assert!(matches!(ev[0], GameEvent::CardDraw { player_id: 0, card } if card == num(Color::RED, 2)));
    assert!(matches!(ev[1], GameEvent::DrawnCardPlayable { player_id: 0 }));
    assert_eq!(g.current_player, 0);
    assert_eq!(g.players[0].hand.len(), 2);
}

#[test]
fn draw_unplayable_card_passes() {
    let hands = vec![vec![num(Color::GREEN, 1)], filler(3), filler(3)];
    let mut g = table(hands, Some(num(Color::RED, 5)), vec![num(Color::BLUE, 2)], true);
    let ev = g.draw_card(0);
    assert_eq!(ev.len(), 3);
    assert!(matches!(ev[1], GameEvent::PlayerPassed { player_id: 0 }));
    assert!(matches!(ev[2], GameEvent::PlayerTurn { player_id: 1 }));
    assert_eq!(g.current_player, 1);
}

#[test]
fn draw_errors() {
    let hands = vec![vec![num(Color::GREEN, 1)], filler(3)];
    let mut g = table(hands, Some(num(Color::RED, 5)), vec![], true);
    let ev = g.draw_card(1);
    assert!(ev.len() == 1 && matches!(ev[0], GameEvent::GameError { .. }));
    let ev = g.draw_card(0);
    assert!(ev.len() == 1 && matches!(ev[0], GameEvent::GameError { .. }));
    assert_eq!(g.players[0].hand.len(), 1);
}

#[test]
fn pass_moves_turn_both_ways() {
    let mut g = table(vec![filler(2), filler(2), filler(2)], Some(num(Color::RED, 5)), vec![], true);
    let ev = g.player_pass(0);
    assert!(matches!(ev[0], GameEvent::PlayerPassed { player_id: 0 }));
    assert!(matches!(ev[1], GameEvent::PlayerTurn { player_id: 1 }));
    g.direction = false;
    g.player_pass(1);
    g.player_pass(0);
    assert_eq!(g.current_player, 2);
    let mut lobby = UnoGame::new();
    let ev = lobby.player_pass(0);
    assert!(matches!(ev[0], GameEvent::GameError { .. }));
}

#[test]
fn challenge_is_refused() {
    let g = table(vec![filler(2), filler(2)], Some(num(Color::RED, 5)), filler(3), true);
    let ev = g.challenge(0, 1);
    assert_eq!(ev.len(), 1);
    assert!(matches!(ev[0], GameEvent::GameError { .. }));
}

#[test]
fn snapshots_of_hands() {
    let g = table(vec![filler(2), filler(5)], Some(num(Color::RED, 5)), filler(3), true);
    assert_eq!(g.get_player_hand(1), filler(5));
    assert!(g.get_player_hand(7).is_empty());
    assert_eq!(g.get_players_cards_count(), vec![("P0".to_string(), 2), ("P1".to_string(), 5)]);
}

#[test]
fn shuffle_changes_the_order() {
    let fresh = UnoDeck::new().cards;
    let mut changed = false;
    for _ in 0..5 {
        let mut d = UnoDeck::new();
        d.shuffle();
        if d.cards != fresh {
            changed = true;
        }
    }
    assert!(changed);
}

#[test]
fn previous_player_goes_back() {
    let mut g = table(vec![filler(2), filler(2), filler(2)], Some(num(Color::RED, 5)), vec![], true);
    assert_eq!(g.previous_player(), 2);
    g.direction = false;
    assert_eq!(g.previous_player(), 1);
}

#[test]
fn draw_on_seated_table_not_started() {
    let mut g = table(vec![vec![num(Color::GREEN, 1)], filler(3)], Some(num(Color::RED, 5)), vec![num(Color::RED, 2)], true);
    g.started = false;
    let ev = g.draw_card(0);
    assert!(matches!(ev[0], GameEvent::CardDraw { player_id: 0, .. }));
    assert_eq!(g.players[0].hand.len(), 2);
    assert!(g.deck.cards.is_empty());
}
