use uno::game::{Color, Number, UnoCard, WildType};
use uno::player::Player;

#[test]
fn player_test_test_player_hand() {
    let mut player = uno::game::Player::new("Alice", 0);
    assert_eq!(player.display_hand().len(), 0);

    let card = UnoCard::NumberCard(Color::RED, Number::from_u8(5).unwrap());
    player.push_card(card.clone());
    assert_eq!(player.display_hand().len(), 1);
    assert_eq!(player.display_hand()[0], card);
}

#[test]
fn player_test_test_player_play_card() {
    let mut player = Player::new("Alice");
    let card = UnoCard::NumberCard(Color::RED, Number::from_u8(5).unwrap());
    player.hand.push(card.clone());

    let top_card = UnoCard::NumberCard(Color::RED, Number::from_u8(3).unwrap());
    let played_card = player.can_play_card(0, Some(&top_card)).unwrap();
    assert_eq!(played_card, card);
    assert_eq!(player.display_hand().len(), 0);
}

#[test]
fn player_refuses_card_that_does_not_match() {
    let mut player = Player::new("Alice");
    let card = UnoCard::NumberCard(Color::GREEN, Number::from_u8(5).unwrap());
    player.hand.push(card);
    let top_card = UnoCard::NumberCard(Color::RED, Number::from_u8(3).unwrap());
    assert!(player.can_play_card(0, Some(&top_card)).is_err());
    assert!(player.can_play_card(4, None).is_err());
    assert_eq!(player.display_hand().len(), 1);
}

#[test]
fn player_draws_from_end_of_deck() {
    let mut player = Player::new("Alice");
    let mut deck = uno::game::UnoDeck::new();
    let last = deck.cards[107];
    let before_last = deck.cards[106];
    player.draw_cards(&mut deck, 2);
    assert_eq!(deck.cards.len(), 106);
    assert_eq!(player.hand, vec![last, before_last]);
    assert_eq!(last, UnoCard::WildCard(None, WildType::DRAWFOUR));
}

#[test]
fn game_player_remove_card() {
    let mut player = uno::game::Player::new("Bob", 3);
    let card = UnoCard::NumberCard(Color::BLUE, Number::NINE);
    player.push_card(card);
    assert!(player.remove_card(1).is_err());
    assert_eq!(player.remove_card(0), Ok(card));
    assert_eq!(player.display_hand().len(), 0);
    assert_eq!(player.id, 3);
    assert_eq!(player.name, "Bob");
}
