use uno::game::UnoGame;

#[test]
fn game_test_test_game_initialization() {
    let players = vec!["Alice".to_string(), "Bob".to_string(), "Charlie".to_string()];
    let mut uno_game: UnoGame = UnoGame::new();
    uno_game.init_game(players);
    assert_eq!(uno_game.players.len(), 3);
    assert_eq!(uno_game.players[0].hand.len(), 7);
}
