use vstd::prelude::*;

use crate::game::cards::{card_text, UnoCard};
use crate::text::{decimal, push_decimal, push_signed_decimal, signed_decimal};

verus! {

/// One state change of a game. A command yields an ordered batch of these,
/// and that order is the causal order of the changes.
#[derive(Clone, Debug)]
pub enum GameEvent {
    PlayerJoined { player_id: usize, name: String },
    GameStarted { game_id: usize },
    CardPlayed { player_id: usize, card: UnoCard },
    CardDraw { player_id: usize, card: UnoCard },
    /// The card just drawn may be played at once.
    DrawnCardPlayable { player_id: usize },
    PlayerPassed { player_id: usize },
    UnoCalled { player_id: usize },
    DirectionChanged { clockwise: bool },
    TopCardChanged { top_card: UnoCard },
    PlayerTurn { player_id: usize },
    PlayerSkipped { player_id: usize },
    DrawFourApplied { target_player_id: usize },
    DrawTwoApplied { target_player_id: usize },
    PlayerChallenged { challenger_id: usize, challenged_id: usize },
    ChallengedFailed { challenger_id: usize, challenged_id: usize },
    ChallengedSuccess { challenger_id: usize, challenged_id: usize },
    UnoPenalty { player_id: usize },
    /// Scores are `(name, points left in hand)`, lowest first.
    GameOver { winner: usize, scores: Vec<(String, i32)> },
    GameError { message: String },
}

/// `actual` is the batch `expected`, where an error entry of `expected`
/// stands for an error with any message.
pub open spec fn conforms(actual: Seq<GameEvent>, expected: Seq<GameEvent>) -> bool {
    &&& actual.len() == expected.len()
    &&& forall|k: int|
        0 <= k < actual.len() ==> if expected[k] is GameError {
            actual[k] is GameError
        } else {
            actual[k] == expected[k]
        }
}

/// An error entry in an expected batch.
pub open spec fn some_error() -> GameEvent {
    GameEvent::GameError { message: vstd::pervasive::arbitrary() }
}

pub proof fn lemma_conforms_concat(a1: Seq<GameEvent>, e1: Seq<GameEvent>, a2: Seq<GameEvent>, e2: Seq<GameEvent>)
    requires
        conforms(a1, e1),
        conforms(a2, e2),
    ensures
        conforms(a1 + a2, e1 + e2),
{
    assert forall|k: int| 0 <= k < (a1 + a2).len() implies if (e1 + e2)[k] is GameError {
        (a1 + a2)[k] is GameError
    } else {
        (a1 + a2)[k] == (e1 + e2)[k]
    } by {
        if k < a1.len() {
        } else {
            assert((a1 + a2)[k] == a2[k - a1.len()]);
            assert((e1 + e2)[k] == e2[k - a1.len()]);
        }
    }
}

pub proof fn lemma_conforms_refl(a: Seq<GameEvent>)
    ensures
        conforms(a, a),
{
}

/// An event that neither judges a call of "uno" nor ends the game.
pub open spec fn quiet(e: GameEvent) -> bool {
    !(e is UnoPenalty) && !(e is UnoCalled) && !(e is GameOver)
}

pub open spec fn all_quiet(s: Seq<GameEvent>) -> bool {
    forall|k: int| 0 <= k < s.len() ==> quiet(#[trigger] s[k])
}

/// Matching batches agree on every entry's kind apart from error messages.
pub proof fn lemma_conforms_kinds(actual: Seq<GameEvent>, expected: Seq<GameEvent>)
    requires
        conforms(actual, expected),
    ensures
        forall|k: int|
            0 <= k < actual.len() ==> (#[trigger] actual[k] is UnoPenalty <==> expected[k] is UnoPenalty)
                && (actual[k] is UnoCalled <==> expected[k] is UnoCalled) && (actual[k] is GameOver
                <==> expected[k] is GameOver),
{
}

pub proof fn lemma_all_quiet_concat(a: Seq<GameEvent>, b: Seq<GameEvent>)
    requires
        all_quiet(a),
        all_quiet(b),
    ensures
        all_quiet(a + b),
{
    assert forall|k: int| 0 <= k < (a + b).len() implies quiet(#[trigger] (a + b)[k]) by {
        if k >= a.len() {
            assert((a + b)[k] == b[k - a.len()]);
        }
    }
}

/// One score as it reads on screen: `("name", points)`.
pub open spec fn score_text(p: (String, i32)) -> Seq<char> {
    "(\""@ + p.0@ + "\", "@ + signed_decimal(p.1 as int) + ")"@
}

/// Scores separated by commas.
pub open spec fn score_items(s: Seq<(String, i32)>) -> Seq<char>
    decreases s.len(),
{
    if s.len() == 0 {
        Seq::empty()
    } else if s.len() == 1 {
        score_text(s[0])
    } else {
        score_items(s.drop_last()) + ", "@ + score_text(s.last())
    }
}

pub open spec fn bool_text(b: bool) -> Seq<char> {
    if b {
        "true"@
    } else {
        "false"@
    }
}

pub open spec fn id_text(label: Seq<char>, n: usize) -> Seq<char> {
    label + decimal(n as nat)
}

pub open spec fn pair_text(name: Seq<char>, a: usize, b: usize) -> Seq<char> {
    name + ": challenger_id="@ + decimal(a as nat) + ", challenged_id="@ + decimal(b as nat)
}

/// How an event reads in a log.
pub open spec fn event_text(e: GameEvent) -> Seq<char> {
    match e {
        GameEvent::PlayerJoined { player_id, name } => id_text("PlayerJoined: id="@, player_id) + ", name="@
            + name@,
        GameEvent::GameStarted { game_id } => id_text("GameStarted: game_id="@, game_id),
        GameEvent::CardPlayed { player_id, card } => id_text("CardPlayed: id="@, player_id) + ", card="@
            + card_text(card),
        GameEvent::CardDraw { player_id, card } => id_text("CardDraw: id="@, player_id) + ", card="@
            + card_text(card),
        GameEvent::DrawnCardPlayable { player_id } => id_text("DrawnCardPlayable: id="@, player_id),
        GameEvent::PlayerPassed { player_id } => id_text("PlayerPassed: id="@, player_id),
        GameEvent::UnoCalled { player_id } => id_text("UnoCalled: id="@, player_id),
        GameEvent::DirectionChanged { clockwise } => "DirectionChanged: clockwise="@ + bool_text(clockwise),
        GameEvent::TopCardChanged { top_card } => "TopCardChanged: top_card="@ + card_text(top_card),
        GameEvent::PlayerTurn { player_id } => id_text("PlayerTurn: id="@, player_id),
        GameEvent::PlayerSkipped { player_id } => id_text("PlayerSkipped: id="@, player_id),
        GameEvent::DrawFourApplied { target_player_id } => id_text(
            "DrawFourApplied: target_id="@,
            target_player_id,
        ),
        GameEvent::DrawTwoApplied { target_player_id } => id_text("DrawTwoApplied: target_id="@, target_player_id),
        GameEvent::PlayerChallenged { challenger_id, challenged_id } => pair_text(
            "PlayerChallenged"@,
            challenger_id,
            challenged_id,
        ),
        GameEvent::ChallengedFailed { challenger_id, challenged_id } => pair_text(
            "ChallengedFailed"@,
            challenger_id,
            challenged_id,
        ),
        GameEvent::ChallengedSuccess { challenger_id, challenged_id } => pair_text(
            "ChallengedSuccess"@,
            challenger_id,
            challenged_id,
        ),
        GameEvent::UnoPenalty { player_id } => id_text("UnoPenalty: id="@, player_id),
        GameEvent::GameOver { winner, scores } => id_text("GameOver: winner="@, winner) + ", scores=["@
            + score_items(scores@) + "]"@,
        GameEvent::GameError { message } => "GameError: message="@ + message@,
    }
}

/// `label` followed by `n` in decimal.
fn labelled(label: &str, n: usize) -> (r: String)
    ensures
        r@ == id_text(label@, n),
{
    let mut s = String::from_str(label);
    push_decimal(&mut s, n as u64);
    s
}

fn pair_line(name: &str, a: usize, b: usize) -> (r: String)
    ensures
        r@ == pair_text(name@, a, b),
{
    let mut s = String::from_str(name);
    s.append(": challenger_id=");
    push_decimal(&mut s, a as u64);
    s.append(", challenged_id=");
    push_decimal(&mut s, b as u64);
    s
}

fn push_scores(s: &mut String, scores: &Vec<(String, i32)>)
    ensures
        final(s)@ == old(s)@ + score_items(scores@),
{
    let mut i: usize = 0;
    proof {
        assert(scores@.take(0) =~= Seq::<(String, i32)>::empty());
        assert(s@ =~= old(s)@ + score_items(scores@.take(0)));
    }
    while i < scores.len()
        invariant
            i <= scores@.len(),
            s@ == old(s)@ + score_items(scores@.take(i as int)),
        decreases scores@.len() - i,
    {
        let ghost before = s@;
        if i > 0 {
            s.append(", ");
        }
        s.append("(\"");
        s.append(scores[i].0.as_str());
        s.append("\", ");
        push_signed_decimal(s, scores[i].1 as i64);
        s.append(")");
        proof {
            let t = scores@.take(i + 1);
            assert(t.drop_last() =~= scores@.take(i as int));
            assert(t.last() == scores@[i as int]);
            if i == 0 {
                assert(score_items(t) == score_text(t[0]));
                assert(s@ =~= before + score_text(scores@[i as int]));
            } else {
                assert(s@ =~= before + ", "@ + score_text(scores@[i as int]));
            }
        }
        i = i + 1;
    }
    proof {
        assert(scores@.take(i as int) =~= scores@);
    }
}

impl GameEvent {
    /// How the event reads in a log, e.g. `PlayerTurn: id=2`.
    pub fn to_text(&self) -> (r: String)
        ensures
            r@ == event_text(*self),
    {
        match self {
            GameEvent::PlayerJoined { player_id, name } => {
                let mut s = labelled("PlayerJoined: id=", *player_id);
                s.append(", name=");
                s.append(name.as_str());
                s
            },
            GameEvent::GameStarted { game_id } => labelled("GameStarted: game_id=", *game_id),
            GameEvent::CardPlayed { player_id, card } => {
                let mut s = labelled("CardPlayed: id=", *player_id);
                s.append(", card=");
                s.append(card.to_text().as_str());
                s
            },
            GameEvent::CardDraw { player_id, card } => {
                let mut s = labelled("CardDraw: id=", *player_id);
                s.append(", card=");
                s.append(card.to_text().as_str());
                s
            },
            GameEvent::DrawnCardPlayable { player_id } => labelled("DrawnCardPlayable: id=", *player_id),
            GameEvent::PlayerPassed { player_id } => labelled("PlayerPassed: id=", *player_id),
            GameEvent::UnoCalled { player_id } => labelled("UnoCalled: id=", *player_id),
            GameEvent::DirectionChanged { clockwise } => {
                let mut s = String::from_str("DirectionChanged: clockwise=");
                if *clockwise {
                    s.append("true");
                } else {
                    s.append("false");
                }
                s
            },
            GameEvent::TopCardChanged { top_card } => {
                let mut s = String::from_str("TopCardChanged: top_card=");
                s.append(top_card.to_text().as_str());
                s
            },
            GameEvent::PlayerTurn { player_id } => labelled("PlayerTurn: id=", *player_id),
            GameEvent::PlayerSkipped { player_id } => labelled("PlayerSkipped: id=", *player_id),
            GameEvent::DrawFourApplied { target_player_id } => labelled(
                "DrawFourApplied: target_id=",
                *target_player_id,
            ),
            GameEvent::DrawTwoApplied { target_player_id } => labelled(
                "DrawTwoApplied: target_id=",
                *target_player_id,
            ),
            GameEvent::PlayerChallenged { challenger_id, challenged_id } => pair_line(
                "PlayerChallenged",
                *challenger_id,
                *challenged_id,
            ),
            GameEvent::ChallengedFailed { challenger_id, challenged_id } => pair_line(
                "ChallengedFailed",
                *challenger_id,
                *challenged_id,
            ),
            GameEvent::ChallengedSuccess { challenger_id, challenged_id } => pair_line(
                "ChallengedSuccess",
                *challenger_id,
                *challenged_id,
            ),
            GameEvent::UnoPenalty { player_id } => labelled("UnoPenalty: id=", *player_id),
            GameEvent::GameOver { winner, scores } => {
                let mut s = labelled("GameOver: winner=", *winner);
                s.append(", scores=[");
                push_scores(&mut s, scores);
                s.append("]");
                s
            },
            GameEvent::GameError { message } => {
                let mut s = String::from_str("GameError: message=");
                s.append(message.as_str());
                s
            },
        }
    }
}

} // verus!
