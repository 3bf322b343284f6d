use uno::game::{valid_card, Action, Color, Number, NumberCard, UnoCard, UnoGame, WildType};
use uno::player::Player;

#[test]
fn intergration_test_number_card() {
    let card: NumberCard = NumberCard { color: Color::RED, number: Number::from_u8(5).unwrap() };
    assert_eq!(card.color, Color::RED);
    assert_eq!(card.number, Number::FIVE);
}

#[test]
fn intergration_test_valid_card() {
    let top_card = UnoCard::NumberCard(Color::RED, Number::from_u8(5).unwrap());
    let card1 = UnoCard::NumberCard(Color::RED, Number::from_u8(3).unwrap());
    let card2 = UnoCard::ActionCard(Color::RED, Action::SKIP);
    let card3 = UnoCard::WildCard(Some(Color::BLUE), WildType::WILD);

    assert!(valid_card(&card1, &Some(top_card)));
    assert!(valid_card(&card2, &Some(top_card)));
    assert!(valid_card(&card3, &Some(top_card)));
    assert!(valid_card(&card1, &None));
}

#[test]
fn intergration_test_game_initialization() {
    let players = vec!["Alice".to_string(), "Bob".to_string(), "Charlie".to_string()];
    let mut uno_game: UnoGame = UnoGame::new();
    uno_game.init_game(players);
    assert_eq!(uno_game.players.len(), 3);
    assert_eq!(uno_game.players[0].hand.len(), 7);
}

#[test]
fn intergration_test_player_hand() {
    let mut player = Player::new("Alice");
    assert_eq!(player.display_hand().len(), 0);

    let card = UnoCard::NumberCard(Color::RED, Number::from_u8(5).unwrap());
    player.hand.push(card.clone());
    assert_eq!(player.display_hand().len(), 1);
    assert_eq!(player.display_hand()[0], card);
}

#[test]
fn intergration_test_player_play_card() {
    let mut player = Player::new("Alice");
    let card = UnoCard::NumberCard(Color::RED, Number::from_u8(5).unwrap());
    player.hand.push(card.clone());

    let top_card = UnoCard::NumberCard(Color::RED, Number::from_u8(3).unwrap());
    let played_card = player.can_play_card(0, Some(&top_card)).unwrap();
    assert_eq!(played_card, card);
    assert_eq!(player.display_hand().len(), 0);
}
