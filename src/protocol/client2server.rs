use vstd::prelude::*;

use crate::game::cards::Color;

verus! {

/// A message from a client to the server.
#[derive(Clone, Debug)]
pub enum Client2Server {
    JoinGame { room_id: String, name: String },
    StartGame { player_id: usize },
    PlayCard { player_id: usize, card_index: usize, color: Color, call_uno: bool },
    DrawCard { player_id: usize, count: usize },
    PassTurn { player_id: usize },
    ChallengeWildDrawFour { challenger_id: usize, challenged_id: usize },
    LeaveGame { player_id: usize },
}

} // verus!
