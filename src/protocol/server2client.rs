use vstd::prelude::*;

use crate::game::cards::UnoCard;
use crate::game::events::GameEvent;

verus! {

/// A message from the server to a client.
#[derive(Clone, Debug)]
pub enum Server2Client {
    Welcome { player_id: usize, session_id: String },
    /// What every member may see: each seat's name and hand size, the
    /// discard pile, whose turn it is and the direction of play.
    SharedState {
        players_cards_count: Vec<(String, usize)>,
        top_card: Option<UnoCard>,
        current_player: usize,
        clockwise: bool,
    },
    /// What only one member may see: their own hand.
    PlayerState { player_id: usize, hand: Vec<UnoCard> },
    GameStarted { game_id: String, players: Vec<String> },
    Events(Vec<GameEvent>),
    ServerError { message: String },
}

} // verus!
