use vstd::prelude::*;
use vstd::multiset::Multiset;

use crate::game::cards::{
    colored, fresh_deck, playable, points, uncolored, valid_card, with_color,
    Action, Color, UnoCard, UnoDeck, WildType, DECK_SIZE,
};
use crate::game::events::{
    all_quiet, conforms, lemma_all_quiet_concat, lemma_conforms_concat, lemma_conforms_kinds,
    lemma_conforms_refl, quiet, some_error, GameEvent,
};
use crate::game::player::Player;

verus! {

/// The rule engine of one game: the seats, whose turn it is, the direction of
/// play, the card on the discard pile and the draw pile.
pub struct UnoGame {
    pub deck: UnoDeck,
    pub players: Vec<Player>,
    pub current_player: usize,
    pub top_card: Option<UnoCard>,
    /// `true` for clockwise.
    pub direction: bool,
    pub started: bool,
}

// ----- model -----

/// The cards in all hands, as a multiset.
pub open spec fn held_cards(hands: Seq<Seq<UnoCard>>) -> Multiset<UnoCard>
    decreases hands.len(),
{
    if hands.len() == 0 {
        Multiset::empty()
    } else {
        held_cards(hands.drop_last()).add(hands.last().to_multiset())
    }
}

pub proof fn lemma_held_cards_extend(hands: Seq<Seq<UnoCard>>, p: int, x: Seq<UnoCard>)
    requires
        0 <= p < hands.len(),
    ensures
        held_cards(hands.update(p, hands[p] + x)) == held_cards(hands).add(x.to_multiset()),
    decreases hands.len(),
{
    broadcast use vstd::seq_lib::lemma_multiset_commutative;

    let u = hands.update(p, hands[p] + x);
    if p == hands.len() - 1 {
        assert(u.drop_last() =~= hands.drop_last());
        assert(held_cards(u) =~= held_cards(hands).add(x.to_multiset()));
    } else {
        lemma_held_cards_extend(hands.drop_last(), p, x);
        assert(u.drop_last() =~= hands.drop_last().update(p, hands[p] + x));
        assert(held_cards(u) =~= held_cards(hands).add(x.to_multiset()));
    }
}

pub proof fn lemma_held_cards_empty(n: nat)
    ensures
        held_cards(empty_hands(n)) == Multiset::<UnoCard>::empty(),
    decreases n,
{
    broadcast use vstd::seq_lib::group_to_multiset_ensures, vstd::multiset::lemma_multiset_empty_len;

    if n > 0 {
        lemma_held_cards_empty((n - 1) as nat);
        assert(empty_hands(n).drop_last() =~= empty_hands((n - 1) as nat));
        assert(empty_hands(n).last().to_multiset().len() == 0);
        assert(held_cards(empty_hands(n)) =~= Multiset::<UnoCard>::empty());
    } else {
        assert(empty_hands(0) =~= Seq::<Seq<UnoCard>>::empty());
    }
}

/// Drawing moves cards from the deck to the hand and makes none.
pub proof fn lemma_draw_keeps_cards(deck: Seq<UnoCard>, k: nat)
    ensures
        rest_of_deck(deck, k).to_multiset().add(popped(deck, k).to_multiset()) == deck.to_multiset(),
{
    broadcast use vstd::seq_lib::lemma_multiset_commutative;

    let m = drawn_count(deck, k);
    let cut = deck.len() - m;
    let top = deck.subrange(cut, deck.len() as int);
    assert(popped(deck, k) =~= top.reverse());
    top.lemma_reverse_to_multiset();
    assert(deck =~= rest_of_deck(deck, k) + top);
}

/// The seat after `cur` among `n` seats, going the given way round.
pub open spec fn step(cur: int, n: int, clockwise: bool) -> int {
    if clockwise {
        (cur + 1) % n
    } else {
        (cur + n - 1) % n
    }
}

/// How many of `k` requested cards a deck can give.
pub open spec fn drawn_count(deck: Seq<UnoCard>, k: nat) -> nat {
    if k <= deck.len() {
        k
    } else {
        deck.len()
    }
}

/// The cards that `k` draws take from the end of `deck`, in the order drawn.
pub open spec fn popped(deck: Seq<UnoCard>, k: nat) -> Seq<UnoCard> {
    Seq::new(drawn_count(deck, k), |j: int| deck[deck.len() - 1 - j])
}

/// The deck once `k` cards have been drawn from it.
pub open spec fn rest_of_deck(deck: Seq<UnoCard>, k: nat) -> Seq<UnoCard> {
    deck.take(deck.len() - drawn_count(deck, k))
}

/// The events of player `pid` drawing `k` cards: one per card drawn, then an
/// error if the deck ran out first.
pub open spec fn draw_events(pid: usize, deck: Seq<UnoCard>, k: nat) -> Seq<GameEvent> {
    popped(deck, k).map_values(|c: UnoCard| GameEvent::CardDraw { player_id: pid, card: c })
        + if k <= deck.len() {
        Seq::<GameEvent>::empty()
    } else {
        seq![some_error()]
    }
}

/// Number of cards held over all hands.
pub open spec fn cards_held(hands: Seq<Seq<UnoCard>>) -> nat
    decreases hands.len(),
{
    if hands.len() == 0 {
        0
    } else {
        cards_held(hands.drop_last()) + hands.last().len()
    }
}

/// Points of the cards in one hand.
pub open spec fn hand_points(hand: Seq<UnoCard>) -> int
    decreases hand.len(),
{
    if hand.len() == 0 {
        0
    } else {
        hand_points(hand.drop_last()) + points(hand.last())
    }
}

/// Points of the cards in all hands.
pub open spec fn total_points(hands: Seq<Seq<UnoCard>>) -> int
    decreases hands.len(),
{
    if hands.len() == 0 {
        0
    } else {
        total_points(hands.drop_last()) + hand_points(hands.last())
    }
}

/// Sum of the scores in a score list.
pub open spec fn score_sum(s: Seq<(String, i32)>) -> int
    decreases s.len(),
{
    if s.len() == 0 {
        0
    } else {
        s[0].1 + score_sum(s.drop_first())
    }
}

pub open spec fn ascending(s: Seq<(String, i32)>) -> bool {
    forall|i: int, j: int| 0 <= i < j < s.len() ==> s[i].1 <= s[j].1
}

impl UnoGame {
    pub open spec fn deck_cards(&self) -> Seq<UnoCard> {
        self.deck.cards@
    }

    pub open spec fn seats(&self) -> Seq<Player> {
        self.players@
    }

    pub open spec fn hands(&self) -> Seq<Seq<UnoCard>> {
        self.seats().map_values(|p: Player| p.hand())
    }

    /// All cards of the table: the deck, the hands and the discard pile.
    pub open spec fn table_cards(&self) -> Multiset<UnoCard> {
        self.deck_cards().to_multiset().add(held_cards(self.hands())).add(
            match self.top_card {
                Some(t) => Multiset::singleton(t),
                None => Multiset::empty(),
            },
        )
    }

    /// Cards in the deck, in the hands and on the discard pile.
    pub open spec fn card_count(&self) -> nat {
        self.deck_cards().len() + cards_held(self.hands()) + if self.top_card is Some {
            1nat
        } else {
            0nat
        }
    }

    /// Well-formedness: no card is made or lost, slot ids are the seat
    /// indices, the turn pointer names a seat, a started game has seats, and
    /// the discard pile never shows a wild card without a color.
    pub open spec fn wf(&self) -> bool {
        &&& self.card_count() == DECK_SIZE
        &&& forall|i: int| 0 <= i < self.seats().len() ==> #[trigger] self.seats()[i].id == i
        &&& self.seats().len() > 0 ==> self.current_player < self.seats().len()
        &&& self.seats().len() == 0 ==> self.current_player == 0
        &&& self.started ==> self.seats().len() > 0
        &&& self.seats().len() == 0 ==> self.top_card is None
        &&& self.top_card is Some ==> colored(self.top_card.unwrap())
    }

    /// Whether a play of card `idx` by `pid`, with `color` for a wild card,
    /// is accepted: the game runs, it is `pid`'s turn, the card exists and it
    /// may go on the discard pile.
    pub open spec fn accepts_play(&self, pid: usize, idx: usize, color: Color) -> bool {
        &&& self.started
        &&& pid == self.current_player
        &&& idx < self.hands()[pid as int].len()
        &&& playable(with_color(self.hands()[pid as int][idx as int], color), self.top_card)
    }

    /// The seat that plays after the current one.
    pub open spec fn next_seat(&self) -> int {
        step(self.current_player as int, self.seats().len() as int, self.direction)
    }
}

/// Cards dealt to each seat when a game starts.
pub const HAND_SIZE: usize = 7;

/// The events of seating `names` in order.
pub open spec fn joined_events(names: Seq<String>) -> Seq<GameEvent> {
    Seq::new(names.len(), |i: int| GameEvent::PlayerJoined { player_id: i as usize, name: names[i] })
}

/// The deck once the first `i` seats have been dealt their hands.
pub open spec fn deck_after_deals(deck: Seq<UnoCard>, i: nat) -> Seq<UnoCard>
    decreases i,
{
    if i == 0 {
        deck
    } else {
        rest_of_deck(deck_after_deals(deck, (i - 1) as nat), HAND_SIZE as nat)
    }
}

/// The hands of the first `i` seats once dealt from `deck`.
pub open spec fn dealt_hands(deck: Seq<UnoCard>, i: nat) -> Seq<Seq<UnoCard>>
    decreases i,
{
    if i == 0 {
        Seq::empty()
    } else {
        dealt_hands(deck, (i - 1) as nat).push(
            popped(deck_after_deals(deck, (i - 1) as nat), HAND_SIZE as nat),
        )
    }
}

/// The events of dealing the hands of the first `i` seats from `deck`.
pub open spec fn deal_events(deck: Seq<UnoCard>, i: nat) -> Seq<GameEvent>
    decreases i,
{
    if i == 0 {
        Seq::empty()
    } else {
        deal_events(deck, (i - 1) as nat) + draw_events(
            (i - 1) as usize,
            deck_after_deals(deck, (i - 1) as nat),
            HAND_SIZE as nat,
        )
    }
}

/// Position of the number card nearest the end (the top) of `s`, or -1.
pub open spec fn last_number_index(s: Seq<UnoCard>) -> int
    decreases s.len(),
{
    if s.len() == 0 {
        -1
    } else if s.last() is NumberCard {
        s.len() - 1
    } else {
        last_number_index(s.drop_last())
    }
}

pub proof fn lemma_dealt_hands_len(deck: Seq<UnoCard>, i: nat)
    ensures
        dealt_hands(deck, i).len() == i,
    decreases i,
{
    if i > 0 {
        lemma_dealt_hands_len(deck, (i - 1) as nat);
    }
}

pub proof fn lemma_last_number_index_bounds(s: Seq<UnoCard>)
    ensures
        -1 <= last_number_index(s) < s.len(),
        last_number_index(s) >= 0 ==> s[last_number_index(s)] is NumberCard,
    decreases s.len(),
{
    if s.len() > 0 && !(s.last() is NumberCard) {
        lemma_last_number_index_bounds(s.drop_last());
    }
}

/// One score row per seat, in seat order: the name and the points left in hand.
pub open spec fn score_rows(seats: Seq<Player>) -> Seq<(String, i32)> {
    Seq::new(seats.len(), |i: int| (seats[i].name, hand_points(seats[i].hand()) as i32))
}

pub proof fn lemma_points_range(c: UnoCard)
    ensures
        0 <= points(c) <= 50,
{
}

pub proof fn lemma_hand_points_range(hand: Seq<UnoCard>)
    ensures
        0 <= hand_points(hand) <= 50 * hand.len(),
    decreases hand.len(),
{
    if hand.len() > 0 {
        lemma_hand_points_range(hand.drop_last());
        lemma_points_range(hand.last());
    }
}

pub proof fn lemma_hand_le_held(hands: Seq<Seq<UnoCard>>, i: int)
    requires
        0 <= i < hands.len(),
    ensures
        hands[i].len() <= cards_held(hands),
    decreases hands.len(),
{
    if i < hands.len() - 1 {
        lemma_hand_le_held(hands.drop_last(), i);
    }
}

pub proof fn lemma_total_points_range(hands: Seq<Seq<UnoCard>>)
    ensures
        0 <= total_points(hands) <= 50 * cards_held(hands),
    decreases hands.len(),
{
    if hands.len() > 0 {
        lemma_total_points_range(hands.drop_last());
        lemma_hand_points_range(hands.last());
    }
}

pub proof fn lemma_score_sum_insert(s: Seq<(String, i32)>, pos: int, x: (String, i32))
    requires
        0 <= pos <= s.len(),
    ensures
        score_sum(s.insert(pos, x)) == score_sum(s) + x.1,
    decreases s.len(),
{
    if pos == 0 {
        assert(s.insert(pos, x).drop_first() =~= s);
    } else {
        lemma_score_sum_insert(s.drop_first(), pos - 1, x);
        assert(s.insert(pos, x).drop_first() =~= s.drop_first().insert(pos - 1, x));
    }
}

pub proof fn lemma_insert_to_multiset<A>(s: Seq<A>, pos: int, x: A)
    requires
        0 <= pos <= s.len(),
    ensures
        s.insert(pos, x).to_multiset() == s.to_multiset().insert(x),
{
    broadcast use vstd::seq_lib::group_to_multiset_ensures;

    let t = s.insert(pos, x);
    assert(t.remove(pos) =~= s);
    assert(t[pos] == x);
    assert(t.to_multiset().count(x) > 0);
    assert(t.to_multiset() =~= t.to_multiset().remove(x).insert(x));
}

/// How many cards the seat after the player must draw for `card`.
pub open spec fn effect_draws(card: UnoCard) -> nat {
    match card {
        UnoCard::ActionCard(_, Action::DRAWTWO) => 2,
        UnoCard::WildCard(_, WildType::DRAWFOUR) => 4,
        _ => 0,
    }
}

pub open spec fn is_skip(card: UnoCard) -> bool {
    match card {
        UnoCard::ActionCard(_, Action::SKIP) => true,
        _ => false,
    }
}

pub open spec fn is_reverse(card: UnoCard) -> bool {
    match card {
        UnoCard::ActionCard(_, Action::REVERSE) => true,
        _ => false,
    }
}

/// Direction of play once `card` has been played.
pub open spec fn direction_after(card: UnoCard, clockwise: bool) -> bool {
    if is_reverse(card) {
        !clockwise
    } else {
        clockwise
    }
}

/// The seat whose turn it is once seat `cur` has played `card`: a skip or a
/// draw card passes over the next seat, a reverse turns play round first.
pub open spec fn turn_after(card: UnoCard, cur: int, n: int, clockwise: bool) -> int {
    if is_reverse(card) {
        step(cur, n, !clockwise)
    } else if is_skip(card) || effect_draws(card) > 0 {
        step(step(cur, n, clockwise), n, clockwise)
    } else {
        step(cur, n, clockwise)
    }
}

/// The events of `card` taking effect on seat `target`, the deck being `deck`.
pub open spec fn effect_events(card: UnoCard, target: usize, clockwise: bool, deck: Seq<UnoCard>) -> Seq<
    GameEvent,
> {
    match card {
        UnoCard::ActionCard(_, Action::SKIP) => seq![GameEvent::PlayerSkipped { player_id: target }],
        UnoCard::ActionCard(_, Action::REVERSE) => seq![
            GameEvent::DirectionChanged { clockwise: !clockwise },
        ],
        UnoCard::ActionCard(_, Action::DRAWTWO) => seq![
            GameEvent::DrawTwoApplied { target_player_id: target },
        ] + draw_events(target, deck, 2),
        UnoCard::WildCard(_, WildType::DRAWFOUR) => seq![
            GameEvent::DrawFourApplied { target_player_id: target },
        ] + draw_events(target, deck, 4),
        _ => Seq::empty(),
    }
}

/// A player owes a penalty when the call of "uno" disagrees with holding
/// exactly one card.
pub open spec fn uno_penalty_due(call_uno: bool, left: nat) -> bool {
    call_uno != (left == 1)
}

/// The events of judging the call of "uno" of player `pid`, left with
/// `left` cards, the deck being `deck`.
pub open spec fn uno_events(pid: usize, call_uno: bool, left: nat, deck: Seq<UnoCard>) -> Seq<GameEvent> {
    if uno_penalty_due(call_uno, left) {
        seq![GameEvent::UnoPenalty { player_id: pid }] + draw_events(pid, deck, 2)
    } else if call_uno {
        seq![GameEvent::UnoCalled { player_id: pid }]
    } else {
        Seq::empty()
    }
}

/// The deck once the card that was on the discard pile has gone back under it.
pub open spec fn deck_with_returned(deck: Seq<UnoCard>, top: Option<UnoCard>) -> Seq<UnoCard> {
    match top {
        Some(t) => seq![uncolored(t)] + deck,
        None => deck,
    }
}

pub proof fn lemma_draw_events_quiet(pid: usize, deck: Seq<UnoCard>, k: nat)
    ensures
        all_quiet(draw_events(pid, deck, k)),
{
    let drawn = popped(deck, k).map_values(|c: UnoCard| GameEvent::CardDraw { player_id: pid, card: c });
    let tail = if k <= deck.len() {
        Seq::<GameEvent>::empty()
    } else {
        seq![some_error()]
    };
    assert(all_quiet(drawn));
    assert(all_quiet(tail));
    lemma_all_quiet_concat(drawn, tail);
}

pub proof fn lemma_effect_events_quiet(card: UnoCard, target: usize, clockwise: bool, deck: Seq<UnoCard>)
    ensures
        all_quiet(effect_events(card, target, clockwise, deck)),
{
    lemma_draw_events_quiet(target, deck, 2);
    lemma_draw_events_quiet(target, deck, 4);
    match card {
        UnoCard::ActionCard(_, Action::DRAWTWO) => {
            lemma_all_quiet_concat(
                seq![GameEvent::DrawTwoApplied { target_player_id: target }],
                draw_events(target, deck, 2),
            );
        },
        UnoCard::WildCard(_, WildType::DRAWFOUR) => {
            lemma_all_quiet_concat(
                seq![GameEvent::DrawFourApplied { target_player_id: target }],
                draw_events(target, deck, 4),
            );
        },
        _ => {},
    }
}

/// In a batch made of a quiet head, the judging of a call of "uno" and a
/// turn announcement, a penalty appears exactly when one is due, and a
/// successful call exactly when "uno" was called and no penalty is due.
pub proof fn lemma_uno_judged(
    ev: Seq<GameEvent>,
    head: Seq<GameEvent>,
    pid: usize,
    call_uno: bool,
    left: nat,
    deck: Seq<UnoCard>,
    turn: usize,
)
    requires
        all_quiet(head),
        conforms(ev, head + uno_events(pid, call_uno, left, deck) + seq![GameEvent::PlayerTurn { player_id: turn }]),
    ensures
        (exists|k: int| 0 <= k < ev.len() && #[trigger] ev[k] is UnoPenalty) <==> uno_penalty_due(call_uno, left),
        (exists|k: int| 0 <= k < ev.len() && #[trigger] ev[k] is UnoCalled) <==> (call_uno && !uno_penalty_due(
            call_uno,
            left,
        )),
{
    let u = uno_events(pid, call_uno, left, deck);
    let t = seq![GameEvent::PlayerTurn { player_id: turn }];
    let e = head + u + t;
    lemma_conforms_kinds(ev, e);
    lemma_draw_events_quiet(pid, deck, 2);
    let h = head.len() as int;
    assert(e[h] == u[0] || u.len() == 0);
    if uno_penalty_due(call_uno, left) {
        assert(e[h] == u[0]);
        assert(ev[h] is UnoPenalty);
        assert forall|k: int| 0 <= k < ev.len() implies !(#[trigger] ev[k] is UnoCalled) by {
            if k < h {
                assert(e[k] == head[k]);
                assert(quiet(head[k]));
            } else if k == h {
            } else if k < h + u.len() {
                assert(e[k] == u[k - h]);
                assert(u[k - h] == draw_events(pid, deck, 2)[k - h - 1]);
                assert(quiet(draw_events(pid, deck, 2)[k - h - 1]));
            } else {
                assert(e[k] == t[k - h - u.len()]);
            }
        }
    } else {
        assert forall|k: int| 0 <= k < ev.len() implies !(#[trigger] ev[k] is UnoPenalty) by {
            if k < h {
                assert(e[k] == head[k]);
                assert(quiet(head[k]));
            } else if k < h + u.len() {
                assert(e[k] == u[k - h]);
            } else {
                assert(e[k] == t[k - h - u.len()]);
            }
        }
        if call_uno {
            assert(e[h] == u[0]);
            assert(ev[h] is UnoCalled);
        } else {
            assert forall|k: int| 0 <= k < ev.len() implies !(#[trigger] ev[k] is UnoCalled) by {
                if k < h {
                    assert(e[k] == head[k]);
                    assert(quiet(head[k]));
                } else {
                    assert(e[k] == t[k - h - u.len()]);
                }
            }
        }
    }
}


pub proof fn lemma_cards_held_update(hands: Seq<Seq<UnoCard>>, p: int, h: Seq<UnoCard>)
    requires
        0 <= p < hands.len(),
    ensures
        cards_held(hands.update(p, h)) == cards_held(hands) - hands[p].len() + h.len(),
    decreases hands.len(),
{
    if p == hands.len() - 1 {
        assert(hands.update(p, h).drop_last() =~= hands.drop_last());
    } else {
        lemma_cards_held_update(hands.drop_last(), p, h);
        assert(hands.update(p, h).drop_last() =~= hands.drop_last().update(p, h));
    }
}

/// `n` empty hands.
pub open spec fn empty_hands(n: nat) -> Seq<Seq<UnoCard>> {
    Seq::new(n, |i: int| Seq::<UnoCard>::empty())
}

pub proof fn lemma_cards_held_empty(n: nat)
    ensures
        cards_held(empty_hands(n)) == 0,
    decreases n,
{
    if n > 0 {
        lemma_cards_held_empty((n - 1) as nat);
        assert(empty_hands(n).drop_last() =~= empty_hands((n - 1) as nat));
    }
}

pub proof fn lemma_popped_step(deck: Seq<UnoCard>, t: nat)
    requires
        t < deck.len(),
    ensures
        popped(deck, t + 1) == popped(deck, t).push(rest_of_deck(deck, t).last()),
        rest_of_deck(deck, t + 1) == rest_of_deck(deck, t).drop_last(),
{
    assert(popped(deck, t + 1) =~= popped(deck, t).push(rest_of_deck(deck, t).last()));
    assert(rest_of_deck(deck, t + 1) =~= rest_of_deck(deck, t).drop_last());
}

pub proof fn lemma_step_in_range(cur: int, n: int, clockwise: bool)
    requires
        0 <= cur < n,
    ensures
        0 <= step(cur, n, clockwise) < n,
        clockwise ==> step(cur, n, clockwise) == if cur + 1 == n {
            0
        } else {
            cur + 1
        },
        !clockwise ==> step(cur, n, clockwise) == if cur == 0 {
            n - 1
        } else {
            cur - 1
        },
{
    if cur + 1 == n {
        vstd::arithmetic::div_mod::lemma_mod_add_multiples_vanish(0, n);
        vstd::arithmetic::div_mod::lemma_small_mod(0, n as nat);
    } else {
        vstd::arithmetic::div_mod::lemma_small_mod((cur + 1) as nat, n as nat);
    }
    if cur == 0 {
        vstd::arithmetic::div_mod::lemma_small_mod((n - 1) as nat, n as nat);
    } else {
        vstd::arithmetic::div_mod::lemma_mod_add_multiples_vanish(cur - 1, n);
        vstd::arithmetic::div_mod::lemma_small_mod((cur - 1) as nat, n as nat);
    }
}

/// What `init_game` does: `g1` and `ev` are the table and batch after starting a game for `players` on `g0`.
pub open spec fn init_step(g0: UnoGame, players: Seq<String>, g1: UnoGame, ev: Seq<GameEvent>) -> bool {
    &&& ((g0.started || g0.seats().len() > 0 || players.len() == 0) ==> {
            &&& ev.len() == 1
            &&& ev[0] is GameError
            &&& g1 == g0
        })
    &&& (!(g0.started || g0.seats().len() > 0 || players.len() == 0) ==> {
            let n = players.len();
            let d = deck_after_deals(g0.deck_cards(), n);
            let k = last_number_index(d);
            &&& g1.started
            &&& g1.current_player == 0
            &&& g1.direction == g0.direction
            &&& g1.seats().len() == n
            &&& forall|i: int|
                0 <= i < n ==> (#[trigger] g1.seats()[i]).name == players[i]
            &&& g1.hands() =~= dealt_hands(g0.deck_cards(), n)
            &&& k >= 0 ==> {
                &&& g1.top_card == Some(d[k])
                &&& g1.deck_cards().to_multiset() =~= d.remove(k).to_multiset()
                &&& conforms(
                    ev,
                    joined_events(players) + deal_events(g0.deck_cards(), n) + seq![
                        GameEvent::TopCardChanged { top_card: d[k] },
                        GameEvent::PlayerTurn { player_id: 0 },
                        GameEvent::GameStarted { game_id: 0 },
                    ],
                )
            }
            &&& k < 0 ==> {
                &&& g1.top_card is None
                &&& g1.deck_cards().to_multiset() =~= d.to_multiset()
                &&& conforms(
                    ev,
                    joined_events(players) + deal_events(g0.deck_cards(), n) + seq![
                        some_error(),
                        GameEvent::GameStarted { game_id: 0 },
                    ],
                )
            }
        })
    &&& g1.table_cards() =~= g0.table_cards()
}

/// What `play_card` does: `g1` and `ev` are the table and batch after `player_id` plays card `card_idx` of their hand on `g0`.
pub open spec fn play_step(g0: UnoGame, player_id: usize, card_idx: usize, call_uno: bool, color: Color, g1: UnoGame, ev: Seq<GameEvent>) -> bool {
    &&& (!g0.accepts_play(player_id, card_idx, color) ==> {
            &&& ev.len() == 1
            &&& ev[0] is GameError
            &&& g1 == g0
        })
    &&& (g0.accepts_play(player_id, card_idx, color) ==> {
            let p = player_id as int;
            let n = g0.seats().len() as int;
            let card = with_color(g0.hands()[p][card_idx as int], color);
            let a = g0.next_seat();
            let d1 = deck_with_returned(g0.deck_cards(), g0.top_card);
            let h1 = g0.hands().update(p, g0.hands()[p].remove(card_idx as int));
            let h2 = h1.update(a, h1[a] + popped(d1, effect_draws(card)));
            let d2 = rest_of_deck(d1, effect_draws(card));
            let left = h2[p].len();
            let head = seq![
                GameEvent::CardPlayed { player_id, card },
                GameEvent::TopCardChanged { top_card: card },
            ] + effect_events(card, a as usize, g0.direction, d1);
            &&& g1.top_card == Some(card)
            &&& g1.direction == direction_after(card, g0.direction)
            &&& g1.current_player == turn_after(card, p, n, g0.direction)
            &&& g1.seats().len() == n
            &&& forall|i: int|
                0 <= i < n ==> (#[trigger] g1.seats()[i]).name == g0.seats()[i].name
            &&& left == 0 ==> {
                &&& !g1.started
                &&& g1.hands() =~= h2
                &&& g1.deck_cards() =~= d2
                &&& ev.len() == head.len() + 1
                &&& conforms(ev.take(head.len() as int), head)
                &&& ev.last() matches GameEvent::GameOver { winner, scores } && winner == player_id
                    && ascending(scores@) && score_sum(scores@) == total_points(h2)
                    && scores@.to_multiset() =~= score_rows(g1.seats()).to_multiset()
            }
            &&& left > 0 ==> {
                &&& g1.started
                &&& g1.hands() =~= if uno_penalty_due(call_uno, left) {
                    h2.update(p, h2[p] + popped(d2, 2))
                } else {
                    h2
                }
                &&& g1.deck_cards() =~= if uno_penalty_due(call_uno, left) {
                    rest_of_deck(d2, 2)
                } else {
                    d2
                }
                &&& conforms(
                    ev,
                    head + uno_events(player_id, call_uno, left, d2) + seq![
                        GameEvent::PlayerTurn { player_id: g1.current_player },
                    ],
                )
                &&& (exists|k: int| 0 <= k < ev.len() && #[trigger] ev[k] is UnoPenalty)
                    <==> uno_penalty_due(call_uno, left)
                &&& (exists|k: int| 0 <= k < ev.len() && #[trigger] ev[k] is UnoCalled) <==> (call_uno
                    && !uno_penalty_due(call_uno, left))
            }
            &&& left == 0 ==> forall|k: int|
                0 <= k < ev.len() ==> (#[trigger] ev[k] is GameOver <==> k == ev.len() - 1)
        })
}

/// What `draw_card` does: `g1` and `ev` are the table and batch after `player_id` draws on `g0`.
pub open spec fn draw_step(g0: UnoGame, player_id: usize, g1: UnoGame, ev: Seq<GameEvent>) -> bool {
    &&& (!g0.accepts_draw(player_id) ==> ev.len() == 1 && ev[0] is GameError && g1
            == g0)
    &&& (g0.accepts_draw(player_id) ==> {
            let card = g0.deck_cards().last();
            &&& g1.deck_cards() =~= g0.deck_cards().drop_last()
            &&& g1.hands() =~= g0.hands().update(
                player_id as int,
                g0.hands()[player_id as int].push(card),
            )
            &&& g1.seats().len() == g0.seats().len()
            &&& g1.top_card == g0.top_card
            &&& g1.direction == g0.direction
            &&& g1.started == g0.started
            &&& playable(card, g0.top_card) ==> {
                &&& g1.current_player == g0.current_player
                &&& ev =~= seq![
                    GameEvent::CardDraw { player_id, card },
                    GameEvent::DrawnCardPlayable { player_id },
                ]
            }
            &&& !playable(card, g0.top_card) ==> {
                &&& g1.current_player == g0.next_seat()
                &&& ev =~= seq![
                    GameEvent::CardDraw { player_id, card },
                    GameEvent::PlayerPassed { player_id },
                    GameEvent::PlayerTurn { player_id: g0.next_seat() as usize },
                ]
            }
        })
}

/// What `player_pass` does: `g1` and `ev` are the table and batch after `player_id` passes on `g0`.
pub open spec fn pass_step(g0: UnoGame, player_id: usize, g1: UnoGame, ev: Seq<GameEvent>) -> bool {
    &&& (g0.seats().len() == 0 ==> ev.len() == 1 && ev[0] is GameError && g1 == g0)
    &&& (g0.seats().len() > 0 ==> {
            &&& g1.current_player == g0.next_seat()
            &&& g1.players == g0.players
            &&& g1.deck == g0.deck
            &&& g1.top_card == g0.top_card
            &&& g1.direction == g0.direction
            &&& g1.started == g0.started
            &&& ev =~= seq![
                GameEvent::PlayerPassed { player_id },
                GameEvent::PlayerTurn { player_id: g0.next_seat() as usize },
            ]
        })
}

impl UnoGame {
    /// A game in the lobby: no seats, nothing on the discard pile, clockwise,
    /// and a freshly shuffled full deck.
    pub fn new() -> (r: UnoGame)
        ensures
            r.wf(),
            !r.started,
            r.seats().len() == 0,
            r.top_card is None,
            r.direction,
            r.current_player == 0,
            r.deck_cards().to_multiset() == fresh_deck().to_multiset(),
    {
        let mut d = UnoDeck::new();
        d.shuffle();
        let r = UnoGame {
            deck: d,
            players: Vec::new(),
            top_card: None,
            direction: true,
            current_player: 0,
            started: false,
        };
        assert(r.hands() =~= Seq::<Seq<UnoCard>>::empty());
        r
    }

    fn change_direction(&mut self)
        ensures
            final(self).direction == !old(self).direction,
            final(self).deck == old(self).deck,
            final(self).players == old(self).players,
            final(self).current_player == old(self).current_player,
            final(self).top_card == old(self).top_card,
            final(self).started == old(self).started,
    {
        self.direction = !self.direction;
    }

    /// The seat after the current one in the direction of play.
    fn next_player(&self) -> (r: usize)
        requires
            self.seats().len() > 0,
            self.current_player < self.seats().len(),
        ensures
            r == self.next_seat(),
            r < self.seats().len(),
    {
        let n = self.players.len();
        proof {
            lemma_step_in_range(self.current_player as int, n as int, self.direction);
        }
        if self.direction {
            (self.current_player + 1) % n
        } else if self.current_player == 0 {
            n - 1
        } else {
            self.current_player - 1
        }
    }

    /// The seat before the current one in the direction of play.
    pub fn previous_player(&self) -> (r: usize)
        requires
            self.seats().len() > 0,
            self.current_player < self.seats().len(),
        ensures
            r == step(self.current_player as int, self.seats().len() as int, !self.direction),
            r < self.seats().len(),
    {
        let n = self.players.len();
        proof {
            lemma_step_in_range(self.current_player as int, n as int, !self.direction);
        }
        if !self.direction {
            (self.current_player + 1) % n
        } else if self.current_player == 0 {
            n - 1
        } else {
            self.current_player - 1
        }
    }

    /// Deals up to `num_cards` cards from the deck to seat `player_index`,
    /// one event per card, and an error event if the deck runs out.
    fn cards_distribution(&mut self, player_index: usize, num_cards: usize) -> (ev: Vec<GameEvent>)
        requires
            player_index < old(self).seats().len(),
        ensures
            final(self).deck_cards() == rest_of_deck(old(self).deck_cards(), num_cards as nat),
            final(self).seats().len() == old(self).seats().len(),
            forall|i: int|
                0 <= i < old(self).seats().len() && i != player_index
                    ==> #[trigger] final(self).seats()[i] == old(self).seats()[i],
            final(self).seats()[player_index as int].hand() == old(self).seats()[player_index as int].hand()
                + popped(old(self).deck_cards(), num_cards as nat),
            final(self).seats()[player_index as int].name == old(self).seats()[player_index as int].name,
            final(self).seats()[player_index as int].id == old(self).seats()[player_index as int].id,
            final(self).hands() == old(self).hands().update(
                player_index as int,
                old(self).hands()[player_index as int] + popped(old(self).deck_cards(), num_cards as nat),
            ),
            final(self).card_count() == old(self).card_count(),
            final(self).table_cards() == old(self).table_cards(),
            final(self).current_player == old(self).current_player,
            final(self).top_card == old(self).top_card,
            final(self).direction == old(self).direction,
            final(self).started == old(self).started,
            conforms(ev@, draw_events(player_index, old(self).deck_cards(), num_cards as nat)),
    {
        let ghost d0 = self.deck.cards@;
        let ghost h0 = self.players@[player_index as int].hand();
        let mut ev: Vec<GameEvent> = Vec::new();
        let m: usize = if num_cards <= self.deck.cards.len() {
            num_cards
        } else {
            self.deck.cards.len()
        };
        let mut t: usize = 0;
        while t < m
            invariant
                m == drawn_count(d0, num_cards as nat),
                t <= m,
                player_index < self.players@.len(),
                self.players@.len() == old(self).players@.len(),
                self.deck.cards@ == rest_of_deck(d0, t as nat),
                forall|i: int|
                    0 <= i < old(self).players@.len() && i != player_index ==> #[trigger] self.players@[i]
                        == old(self).players@[i],
                self.players@[player_index as int].hand() == h0 + popped(d0, t as nat),
                self.players@[player_index as int].name == old(self).players@[player_index as int].name,
                self.players@[player_index as int].id == old(self).players@[player_index as int].id,
                self.current_player == old(self).current_player,
                self.top_card == old(self).top_card,
                self.direction == old(self).direction,
                self.started == old(self).started,
                d0 == old(self).deck.cards@,
                h0 == old(self).players@[player_index as int].hand(),
                ev@ == popped(d0, t as nat).map_values(
                    |c: UnoCard| GameEvent::CardDraw { player_id: player_index, card: c },
                ),
            decreases m - t,
        {
            proof {
                lemma_popped_step(d0, t as nat);
            }
            let card = self.deck.cards.pop().unwrap();
            self.players[player_index].push_card(card);
            ev.push(GameEvent::CardDraw { player_id: player_index, card });
            t = t + 1;
            assert(ev@ =~= popped(d0, t as nat).map_values(
                |c: UnoCard| GameEvent::CardDraw { player_id: player_index, card: c },
            ));
        }
        if m < num_cards {
            ev.push(GameEvent::GameError { message: String::from_str("No more cards in the deck to draw!") });
        }
        proof {
            let expected = draw_events(player_index, d0, num_cards as nat);
            assert(conforms(ev@, expected));
            assert(self.hands() =~= old(self).hands().update(
                player_index as int,
                old(self).hands()[player_index as int] + popped(d0, num_cards as nat),
            ));
            lemma_cards_held_update(
                old(self).hands(),
                player_index as int,
                old(self).hands()[player_index as int] + popped(d0, num_cards as nat),
            );
            lemma_held_cards_extend(old(self).hands(), player_index as int, popped(d0, num_cards as nat));
            lemma_draw_keeps_cards(d0, num_cards as nat);
            assert(self.table_cards() =~= old(self).table_cards());
        }
        ev
    }
}

impl UnoGame {
    /// Seats `names` in order, each with slot id equal to its seat index and
    /// an empty hand, with one PlayerJoined event each.
    fn add_players(&mut self, names: &Vec<String>, ev: &mut Vec<GameEvent>)
        requires
            old(self).seats().len() == 0,
        ensures
            final(self).seats().len() == names@.len(),
            forall|i: int|
                0 <= i < names@.len() ==> (#[trigger] final(self).seats()[i]).name == names@[i]
                    && final(self).seats()[i].id == i && final(self).seats()[i].hand()
                    == Seq::<UnoCard>::empty(),
            final(self).deck == old(self).deck,
            final(self).current_player == old(self).current_player,
            final(self).top_card == old(self).top_card,
            final(self).direction == old(self).direction,
            final(self).started == old(self).started,
            final(ev)@ == old(ev)@ + joined_events(names@),
    {
        let ghost ev0 = ev@;
        let mut i: usize = 0;
        while i < names.len()
            invariant
                i <= names@.len(),
                self.players@.len() == i,
                forall|j: int|
                    0 <= j < i ==> (#[trigger] self.players@[j]).name == names@[j] && self.players@[j].id
                        == j && self.players@[j].hand() == Seq::<UnoCard>::empty(),
                self.deck == old(self).deck,
                self.current_player == old(self).current_player,
                self.top_card == old(self).top_card,
                self.direction == old(self).direction,
                self.started == old(self).started,
                ev0 == old(ev)@,
                ev@ == ev0 + joined_events(names@).take(i as int),
            decreases names@.len() - i,
        {
            let name = names[i].clone();
            self.players.push(Player { name: name.clone(), hand: Vec::new(), id: i });
            ev.push(GameEvent::PlayerJoined { player_id: i, name });
            i = i + 1;
            assert(ev@ =~= ev0 + joined_events(names@).take(i as int));
        }
        assert(joined_events(names@).take(i as int) =~= joined_events(names@));
    }

    /// Takes the number card nearest the top of the deck to start the discard
    /// pile. The cards passed over on the way are put back and the deck is
    /// shuffled. `None` if the deck holds no number card.
    fn reveal_first_card(&mut self) -> (found: Option<UnoCard>)
        ensures
            ({
                let d = old(self).deck_cards();
                let k = last_number_index(d);
                &&& k >= 0 ==> found == Some(d[k]) && final(self).deck_cards().to_multiset() == d.remove(
                    k,
                ).to_multiset() && final(self).deck_cards().len() == d.len() - 1
                &&& k < 0 ==> found is None && final(self).deck_cards().to_multiset()
                    == d.to_multiset() && final(self).deck_cards().len() == d.len()
            }),
            final(self).players == old(self).players,
            final(self).current_player == old(self).current_player,
            final(self).top_card == old(self).top_card,
            final(self).direction == old(self).direction,
            final(self).started == old(self).started,
    {
        let ghost d = self.deck.cards@;
        let len = self.deck.cards.len();
        let mut i: usize = len;
        proof {
            assert(d.take(len as int) =~= d);
        }
        loop
            invariant
                i <= len,
                len == d.len(),
                self.deck.cards@ == d,
                last_number_index(d) == last_number_index(d.take(i as int)),
            ensures
                i == 0 || d[i - 1] is NumberCard,
            decreases i,
        {
            if i == 0 {
                break;
            }
            if matches!(self.deck.cards[i - 1], UnoCard::NumberCard(_, _)) {
                break;
            }
            proof {
                assert(d.take(i as int).drop_last() =~= d.take(i - 1));
            }
            i = i - 1;
        }
        proof {
            lemma_last_number_index_bounds(d);
        }
        if i > 0 && matches!(self.deck.cards[i - 1], UnoCard::NumberCard(_, _)) {
            let card = self.deck.cards.remove(i - 1);
            if i < len {
                self.deck.shuffle();
            }
            proof {
                assert(d.take(i as int).last() == d[i - 1]);
            }
            Some(card)
        } else {
            proof {
                assert(d.take(0) =~= Seq::<UnoCard>::empty());
            }
            self.deck.shuffle();
            None
        }
    }

    /// Starts a game for `players`, seated in that order. Refused with an
    /// error event and no change when a game has started, when this table
    /// already holds seats from an earlier game, or when no one is named.
    /// Otherwise seats everyone, deals seven cards to each seat in seat order,
    /// turns up the number card nearest the top of the deck as the first
    /// discard (an error if there is none), gives the turn to seat 0 and marks
    /// the game started.
    pub fn init_game(&mut self, players: Vec<String>) -> (ev: Vec<GameEvent>)
        requires
            old(self).wf(),
        ensures
            final(self).wf(),
            init_step(*old(self), players@, *final(self), ev@),
    {
        let mut ev: Vec<GameEvent> = Vec::new();
        if self.started {
            ev.push(GameEvent::GameError { message: String::from_str("Game already started!") });
            return ev;
        }
        if self.players.len() > 0 {
            ev.push(GameEvent::GameError { message: String::from_str("Game already played at this table!") });
            return ev;
        }
        if players.len() == 0 {
            ev.push(GameEvent::GameError { message: String::from_str("No players to start the game!") });
            return ev;
        }
        let ghost d0 = self.deck.cards@;
        self.add_players(&players, &mut ev);
        let n = self.players.len();
        proof {
            assert(self.hands() =~= dealt_hands(d0, 0) + empty_hands(n as nat));
            lemma_cards_held_empty(n as nat);
            lemma_held_cards_empty(n as nat);
            assert(old(self).hands() =~= Seq::<Seq<UnoCard>>::empty());
            assert(self.table_cards() =~= old(self).table_cards());
            assert(ev@ =~= joined_events(players@) + deal_events(d0, 0));
            lemma_conforms_refl(ev@);
        }
        let mut i: usize = 0;
        while i < n
            invariant
                i <= n,
                n == players@.len(),
                n > 0,
                self.players@.len() == n,
                forall|j: int|
                    0 <= j < n ==> (#[trigger] self.players@[j]).name == players@[j] && self.players@[j].id == j,
                self.deck.cards@ == deck_after_deals(d0, i as nat),
                self.hands() == dealt_hands(d0, i as nat) + empty_hands((n - i) as nat),
                self.card_count() == DECK_SIZE,
                self.table_cards() == old(self).table_cards(),
                self.current_player == 0,
                self.top_card is None,
                self.direction == old(self).direction,
                !self.started,
                conforms(ev@, joined_events(players@) + deal_events(d0, i as nat)),
            decreases n - i,
        {
            let ghost hands_before = self.hands();
            let ghost drawn = popped(deck_after_deals(d0, i as nat), HAND_SIZE as nat);
            let mut dealt = self.cards_distribution(i, HAND_SIZE);
            proof {
                lemma_dealt_hands_len(d0, i as nat);
                lemma_dealt_hands_len(d0, (i + 1) as nat);
                assert(hands_before[i as int] =~= Seq::<UnoCard>::empty());
                assert(Seq::<UnoCard>::empty() + drawn =~= drawn);
                assert(hands_before.update(i as int, drawn) =~= dealt_hands(d0, (i + 1) as nat) + empty_hands(
                    (n - i - 1) as nat,
                ));
                lemma_conforms_concat(
                    ev@,
                    joined_events(players@) + deal_events(d0, i as nat),
                    dealt@,
                    draw_events(i, deck_after_deals(d0, i as nat), HAND_SIZE as nat),
                );
                assert(joined_events(players@) + deal_events(d0, i as nat) + draw_events(
                    i,
                    deck_after_deals(d0, i as nat),
                    HAND_SIZE as nat,
                ) =~= joined_events(players@) + deal_events(d0, (i + 1) as nat));
            }
            ev.append(&mut dealt);
            i = i + 1;
            proof {
                assert(self.hands() =~= dealt_hands(d0, i as nat) + empty_hands((n - i) as nat));
            }
        }
        proof {
            lemma_dealt_hands_len(d0, n as nat);
            assert(self.hands() =~= dealt_hands(d0, n as nat));
        }
        let ghost pre_ev = ev@;
        let ghost pre_deck = self.deck_cards();
        let ghost pre_held = held_cards(self.hands());
        let found = self.reveal_first_card();
        match found {
            Some(card) => {
                self.top_card = Some(card);
                ev.push(GameEvent::TopCardChanged { top_card: card });
                ev.push(GameEvent::PlayerTurn { player_id: self.current_player });
            },
            None => {
                ev.push(GameEvent::GameError {
                    message: String::from_str("No more cards in the deck to start the game!"),
                });
            },
        }
        self.started = true;
        ev.push(GameEvent::GameStarted { game_id: 0 });
        proof {
            let d = deck_after_deals(d0, n as nat);
            let k = last_number_index(d);
            lemma_last_number_index_bounds(d);
            assert(self.table_cards() =~= old(self).table_cards()) by {
                broadcast use vstd::seq_lib::group_to_multiset_ensures, vstd::multiset::group_multiset_axioms;

                if k >= 0 {
                    assert(pre_deck.to_multiset().count(pre_deck[k]) > 0);
                    assert(pre_deck.to_multiset() =~= pre_deck.remove(k).to_multiset().insert(pre_deck[k]));
                }
            }
            let tail = if k >= 0 {
                seq![
                    GameEvent::TopCardChanged { top_card: d[k] },
                    GameEvent::PlayerTurn { player_id: 0 },
                    GameEvent::GameStarted { game_id: 0 },
                ]
            } else {
                seq![some_error(), GameEvent::GameStarted { game_id: 0 }]
            };
            assert(ev@ =~= pre_ev + ev@.subrange(pre_ev.len() as int, ev@.len() as int));
            assert(conforms(ev@.subrange(pre_ev.len() as int, ev@.len() as int), tail));
            lemma_conforms_concat(
                pre_ev,
                joined_events(players@) + deal_events(d0, n as nat),
                ev@.subrange(pre_ev.len() as int, ev@.len() as int),
                tail,
            );
        }
        ev
    }
}

/// Points of the cards in `hand`.
fn hand_score(hand: &Vec<UnoCard>) -> (r: i32)
    requires
        hand@.len() <= DECK_SIZE,
    ensures
        r == hand_points(hand@),
{
    let mut sum: i32 = 0;
    let mut j: usize = 0;
    while j < hand.len()
        invariant
            j <= hand@.len(),
            hand@.len() <= DECK_SIZE,
            sum == hand_points(hand@.take(j as int)),
            0 <= sum <= 50 * j,
        decreases hand@.len() - j,
    {
        proof {
            assert(hand@.take(j + 1).drop_last() =~= hand@.take(j as int));
            lemma_points_range(hand@[j as int]);
        }
        let v = hand[j].get_value();
        sum = sum + v;
        j = j + 1;
    }
    proof {
        assert(hand@.take(j as int) =~= hand@);
    }
    sum
}

impl UnoGame {
    /// Each seat's points left in hand, lowest first. Rows with equal points
    /// keep seat order.
    fn calculate_scores(&self) -> (r: Vec<(String, i32)>)
        requires
            self.wf(),
        ensures
            ascending(r@),
            r@.to_multiset() == score_rows(self.seats()).to_multiset(),
            score_sum(r@) == total_points(self.hands()),
    {
        let mut r: Vec<(String, i32)> = Vec::new();
        let n = self.players.len();
        let ghost rows = score_rows(self.seats());
        proof {
            lemma_total_points_range(self.hands());
            assert(rows.take(0) =~= r@);
            assert(self.hands().take(0) =~= Seq::<Seq<UnoCard>>::empty());
        }
        let mut i: usize = 0;
        while i < n
            invariant
                self.wf(),
                n == self.seats().len(),
                rows == score_rows(self.seats()),
                i <= n,
                ascending(r@),
                r@.to_multiset() == rows.take(i as int).to_multiset(),
                score_sum(r@) == total_points(self.hands().take(i as int)),
            decreases n - i,
        {
            proof {
                lemma_hand_le_held(self.hands(), i as int);
                assert(self.hands()[i as int] == self.players@[i as int].hand());
                lemma_hand_points_range(self.players@[i as int].hand());
            }
            let score = hand_score(&self.players[i].hand);
            let row = (self.players[i].name.clone(), score);
            let mut pos: usize = 0;
            while pos < r.len() && r[pos].1 <= score
                invariant
                    pos <= r@.len(),
                    forall|k: int| 0 <= k < pos ==> #[trigger] r@[k].1 <= score,
                decreases r@.len() - pos,
            {
                pos = pos + 1;
            }
            let ghost before = r@;
            r.insert(pos, row);
            proof {
                assert(row == rows[i as int]);
                assert(rows.take(i + 1) =~= rows.take(i as int).push(row));
                broadcast use vstd::seq_lib::group_to_multiset_ensures;

                lemma_insert_to_multiset(before, pos as int, row);
                lemma_score_sum_insert(before, pos as int, row);
                assert(self.hands().take(i + 1).drop_last() =~= self.hands().take(i as int));
                assert forall|a: int, b: int| 0 <= a < b < r@.len() implies r@[a].1 <= r@[b].1 by {
                    if b < pos {
                    } else if b == pos {
                    } else if a < pos {
                    } else if a == pos {
                        assert(before[pos as int].1 > score);
                        assert(before[pos as int].1 <= before[b - 1].1);
                    } else {
                    }
                }
            }
            i = i + 1;
        }
        proof {
            assert(rows.take(n as int) =~= rows);
            assert(self.hands().take(n as int) =~= self.hands());
        }
        r
    }
}

impl UnoGame {
    /// Lays `card` on the discard pile; the card that lay there goes back
    /// under the deck, without the color it was played with.
    fn discard(&mut self, card: UnoCard)
        ensures
            final(self).top_card == Some(card),
            final(self).deck_cards() == deck_with_returned(old(self).deck_cards(), old(self).top_card),
            final(self).players == old(self).players,
            final(self).current_player == old(self).current_player,
            final(self).direction == old(self).direction,
            final(self).started == old(self).started,
            final(self).card_count() == old(self).card_count() + 1,
    {
        match self.top_card {
            Some(old_top) => {
                let back = match old_top {
                    UnoCard::WildCard(_, wt) => UnoCard::WildCard(None, wt),
                    other => other,
                };
                self.deck.cards.insert(0, back);
                proof {
                    assert(self.deck.cards@ =~= seq![uncolored(old_top)] + old(self).deck.cards@);
                }
            },
            None => {},
        }
        self.top_card = Some(card);
    }

    /// Applies the effect of `card` on seat `target`, the seat after the
    /// player: a skip names it, a reverse turns play round, a draw card makes
    /// it draw two or four cards.
    fn apply_effect(&mut self, card: UnoCard, target: usize) -> (ev: Vec<GameEvent>)
        requires
            target < old(self).seats().len(),
        ensures
            final(self).direction == direction_after(card, old(self).direction),
            final(self).deck_cards() == rest_of_deck(old(self).deck_cards(), effect_draws(card)),
            final(self).hands() == old(self).hands().update(
                target as int,
                old(self).hands()[target as int] + popped(old(self).deck_cards(), effect_draws(card)),
            ),
            final(self).seats().len() == old(self).seats().len(),
            forall|i: int|
                0 <= i < old(self).seats().len() ==> (#[trigger] final(self).seats()[i]).name == old(
                    self,
                ).seats()[i].name && final(self).seats()[i].id == old(self).seats()[i].id,
            final(self).card_count() == old(self).card_count(),
            final(self).current_player == old(self).current_player,
            final(self).top_card == old(self).top_card,
            final(self).started == old(self).started,
            conforms(ev@, effect_events(card, target, old(self).direction, old(self).deck_cards())),
    {
        let ghost d0 = self.deck.cards@;
        let mut ev: Vec<GameEvent> = Vec::new();
        let k: usize = match card {
            UnoCard::ActionCard(_, Action::SKIP) => {
                ev.push(GameEvent::PlayerSkipped { player_id: target });
                0
            },
            UnoCard::ActionCard(_, Action::REVERSE) => {
                self.change_direction();
                ev.push(GameEvent::DirectionChanged { clockwise: self.direction });
                0
            },
            UnoCard::ActionCard(_, Action::DRAWTWO) => {
                ev.push(GameEvent::DrawTwoApplied { target_player_id: target });
                2
            },
            UnoCard::WildCard(_, WildType::DRAWFOUR) => {
                ev.push(GameEvent::DrawFourApplied { target_player_id: target });
                4
            },
            _ => 0,
        };
        if k > 0 {
            let ghost head = ev@;
            let mut drawn = self.cards_distribution(target, k);
            proof {
                lemma_conforms_refl(head);
                lemma_conforms_concat(head, head, drawn@, draw_events(target, d0, k as nat));
            }
            ev.append(&mut drawn);
        } else {
            proof {
                assert(popped(d0, 0) =~= Seq::<UnoCard>::empty());
                assert(rest_of_deck(d0, 0) =~= d0);
                assert(self.hands()[target as int] + popped(d0, 0) =~= self.hands()[target as int]);
                assert(self.hands().update(target as int, self.hands()[target as int] + popped(d0, 0))
                    =~= self.hands());
            }
        }
        ev
    }

    /// The card as it would be played: a wild card takes `color`.
    fn card_for_play(&self, player_id: usize, card_idx: usize, color: Color) -> (r: UnoCard)
        requires
            player_id < self.seats().len(),
            card_idx < self.hands()[player_id as int].len(),
        ensures
            r == with_color(self.hands()[player_id as int][card_idx as int], color),
    {
        proof {
            assert(self.hands()[player_id as int] == self.players@[player_id as int].hand());
        }
        match self.players[player_id].hand[card_idx] {
            UnoCard::WildCard(_, wt) => UnoCard::WildCard(Some(color), wt),
            other => other,
        }
    }

    /// Moves `card`, card `card_idx` of the current player's hand played as
    /// it is given, to the discard pile, applies its effect and moves the turn.
    fn lay_card(&mut self, player_id: usize, card_idx: usize, card: UnoCard) -> (ev: Vec<GameEvent>)
        requires
            old(self).wf(),
            old(self).started,
            player_id == old(self).current_player,
            card_idx < old(self).hands()[player_id as int].len(),
            colored(card),
        ensures
            final(self).wf(),
            final(self).started,
            ({
                let p = player_id as int;
                let n = old(self).seats().len() as int;
                let a = old(self).next_seat();
                let d1 = deck_with_returned(old(self).deck_cards(), old(self).top_card);
                let h1 = old(self).hands().update(p, old(self).hands()[p].remove(card_idx as int));
                &&& final(self).top_card == Some(card)
                &&& final(self).direction == direction_after(card, old(self).direction)
                &&& final(self).current_player == turn_after(card, p, n, old(self).direction)
                &&& final(self).seats().len() == n
                &&& forall|i: int|
                    0 <= i < n ==> (#[trigger] final(self).seats()[i]).name == old(self).seats()[i].name
                &&& final(self).hands() == h1.update(a, h1[a] + popped(d1, effect_draws(card)))
                &&& final(self).deck_cards() == rest_of_deck(d1, effect_draws(card))
                &&& conforms(
                    ev@,
                    seq![
                        GameEvent::CardPlayed { player_id, card },
                        GameEvent::TopCardChanged { top_card: card },
                    ] + effect_events(card, a as usize, old(self).direction, d1),
                )
            }),
    {
        let mut ev: Vec<GameEvent> = Vec::new();
        let ghost g0 = *self;
        let ghost p = player_id as int;
        let n = self.players.len();
        let _ = self.players[player_id].remove_card(card_idx);
        proof {
            assert(self.hands() =~= g0.hands().update(p, g0.hands()[p].remove(card_idx as int)));
            lemma_cards_held_update(g0.hands(), p, g0.hands()[p].remove(card_idx as int));
        }
        self.discard(card);
        ev.push(GameEvent::CardPlayed { player_id, card });
        ev.push(GameEvent::TopCardChanged { top_card: card });
        let target = self.next_player();
        let ghost head0 = ev@;
        let ghost d1 = self.deck_cards();
        let mut effect = self.apply_effect(card, target);
        proof {
            lemma_conforms_refl(head0);
            lemma_conforms_concat(head0, head0, effect@, effect_events(card, target, g0.direction, d1));
        }
        ev.append(&mut effect);
        let skips = match card {
            UnoCard::ActionCard(_, Action::SKIP) => true,
            UnoCard::ActionCard(_, Action::DRAWTWO) => true,
            UnoCard::WildCard(_, WildType::DRAWFOUR) => true,
            _ => false,
        };
        if skips {
            self.current_player = target;
        }
        self.current_player = self.next_player();
        proof {
            lemma_step_in_range(g0.current_player as int, n as int, g0.direction);
            lemma_step_in_range(g0.current_player as int, n as int, !g0.direction);
        }
        ev
    }

    /// Ends the turn of `player_id` once a card is down: an empty hand ends
    /// the game with the scores; otherwise the call of "uno" is judged and
    /// the next turn announced.
    fn close_turn(&mut self, player_id: usize, call_uno: bool) -> (ev: Vec<GameEvent>)
        requires
            old(self).wf(),
            old(self).started,
            player_id < old(self).seats().len(),
        ensures
            final(self).wf(),
            final(self).top_card == old(self).top_card,
            final(self).direction == old(self).direction,
            final(self).current_player == old(self).current_player,
            final(self).seats().len() == old(self).seats().len(),
            forall|i: int|
                0 <= i < old(self).seats().len() ==> (#[trigger] final(self).seats()[i]).name == old(
                    self,
                ).seats()[i].name,
            ({
                let p = player_id as int;
                let h = old(self).hands();
                let d = old(self).deck_cards();
                let left = h[p].len();
                &&& left == 0 ==> {
                    &&& !final(self).started
                    &&& final(self).hands() == h
                    &&& final(self).deck_cards() == d
                    &&& ev@.len() == 1
                    &&& ev@[0] matches GameEvent::GameOver { winner, scores } && winner == player_id
                        && ascending(scores@) && score_sum(scores@) == total_points(h)
                        && scores@.to_multiset() == score_rows(final(self).seats()).to_multiset()
                }
                &&& left > 0 ==> {
                    &&& final(self).started
                    &&& final(self).hands() == if uno_penalty_due(call_uno, left) {
                        h.update(p, h[p] + popped(d, 2))
                    } else {
                        h
                    }
                    &&& final(self).deck_cards() == if uno_penalty_due(call_uno, left) {
                        rest_of_deck(d, 2)
                    } else {
                        d
                    }
                    &&& conforms(
                        ev@,
                        uno_events(player_id, call_uno, left, d) + seq![
                            GameEvent::PlayerTurn { player_id: old(self).current_player },
                        ],
                    )
                }
            }),
    {
        let mut ev: Vec<GameEvent> = Vec::new();
        proof {
            assert(self.hands()[player_id as int] == self.players@[player_id as int].hand());
        }
        if self.players[player_id].hand.len() == 0 {
            let scores = self.calculate_scores();
            ev.push(GameEvent::GameOver { winner: player_id, scores });
            self.started = false;
            return ev;
        }
        let left = self.players[player_id].hand.len();
        let ghost d = self.deck_cards();
        if call_uno != (left == 1) {
            ev.push(GameEvent::UnoPenalty { player_id });
            let ghost pen_head = ev@;
            let mut penalty = self.cards_distribution(player_id, 2);
            proof {
                lemma_conforms_refl(pen_head);
                lemma_conforms_concat(pen_head, pen_head, penalty@, draw_events(player_id, d, 2));
            }
            ev.append(&mut penalty);
        } else if call_uno {
            ev.push(GameEvent::UnoCalled { player_id });
        }
        let ghost mid = ev@;
        ev.push(GameEvent::PlayerTurn { player_id: self.current_player });
        proof {
            let turn = seq![GameEvent::PlayerTurn { player_id: self.current_player }];
            assert(ev@ =~= mid + turn);
            lemma_conforms_refl(turn);
            if !uno_penalty_due(call_uno, left as nat) {
                lemma_conforms_refl(mid);
            }
            lemma_conforms_concat(mid, uno_events(player_id, call_uno, left as nat, d), turn, turn);
        }
        ev
    }

    /// Plays card `card_idx` of `player_id`'s hand, a wild card taking
    /// `color`. Refused with one error event and no change unless the game
    /// runs, it is `player_id`'s turn, the card exists and it may go on the
    /// discard pile. Otherwise the card becomes the discard (the card under
    /// it goes back under the deck), its effect applies and the turn moves
    /// on. A play that empties the hand ends the batch with GameOver and
    /// returns the table to the lobby; any other play has its call of "uno"
    /// judged and ends with the new turn.
    pub fn play_card(&mut self, player_id: usize, card_idx: usize, call_uno: bool, color: Color) -> (ev:
        Vec<GameEvent>)
        requires
            old(self).wf(),
        ensures
            final(self).wf(),
            play_step(*old(self), player_id, card_idx, call_uno, color, *final(self), ev@),
    {
        let mut ev: Vec<GameEvent> = Vec::new();
        if !self.started || player_id != self.current_player {
            ev.push(GameEvent::GameError { message: String::from_str("It's not your turn!") });
            return ev;
        }
        proof {
            assert(self.hands()[player_id as int] == self.players@[player_id as int].hand());
        }
        if card_idx >= self.players[player_id].hand.len() {
            ev.push(GameEvent::GameError { message: String::from_str("Invalid card index") });
            return ev;
        }
        let card = self.card_for_play(player_id, card_idx, color);
        if !valid_card(&card, &self.top_card) {
            ev.push(GameEvent::GameError { message: String::from_str("Cannot play this card") });
            return ev;
        }
        ev = self.lay_card(player_id, card_idx, card);
        let ghost head = ev@;
        let mut tail = self.close_turn(player_id, call_uno);
        ev.append(&mut tail);
        proof {
            let d1 = deck_with_returned(old(self).deck_cards(), old(self).top_card);
            let expected_head = seq![
                GameEvent::CardPlayed { player_id, card },
                GameEvent::TopCardChanged { top_card: card },
            ] + effect_events(card, old(self).next_seat() as usize, old(self).direction, d1);
            lemma_effect_events_quiet(card, old(self).next_seat() as usize, old(self).direction, d1);
            lemma_all_quiet_concat(
                seq![
                    GameEvent::CardPlayed { player_id, card },
                    GameEvent::TopCardChanged { top_card: card },
                ],
                effect_events(card, old(self).next_seat() as usize, old(self).direction, d1),
            );
            if self.started {
                lemma_conforms_concat(head, expected_head, tail@, tail@);
                let p = player_id as int;
                let a = old(self).next_seat();
                let h1 = old(self).hands().update(p, old(self).hands()[p].remove(card_idx as int));
                let h2 = h1.update(a, h1[a] + popped(d1, effect_draws(card)));
                let d2 = rest_of_deck(d1, effect_draws(card));
                assert(expected_head + (uno_events(player_id, call_uno, h2[p].len(), d2) + seq![
                    GameEvent::PlayerTurn { player_id: self.current_player },
                ]) =~= expected_head + uno_events(player_id, call_uno, h2[p].len(), d2) + seq![
                    GameEvent::PlayerTurn { player_id: self.current_player },
                ]);
                lemma_uno_judged(ev@, expected_head, player_id, call_uno, h2[p].len(), d2, self.current_player);
            } else {
                assert(ev@.take(head.len() as int) =~= head);
                lemma_conforms_kinds(head, expected_head);
                assert forall|k: int| 0 <= k < ev@.len() implies (#[trigger] ev@[k] is GameOver <==> k
                    == ev@.len() - 1) by {
                    if k < head.len() {
                        assert(ev@[k] == head[k]);
                        assert(quiet(expected_head[k]));
                    }
                }
            }
        }
        ev
    }
}

impl UnoGame {
    /// Draws the top card of the deck; an error if the deck is empty.
    fn no_card_to_play(&mut self) -> (r: Result<UnoCard, String>)
        ensures
            old(self).deck_cards().len() > 0 ==> r == Ok::<UnoCard, String>(old(self).deck_cards().last())
                && final(self).deck_cards() == old(self).deck_cards().drop_last(),
            old(self).deck_cards().len() == 0 ==> r is Err && final(self).deck_cards() == old(
                self,
            ).deck_cards(),
            final(self).players == old(self).players,
            final(self).current_player == old(self).current_player,
            final(self).top_card == old(self).top_card,
            final(self).direction == old(self).direction,
            final(self).started == old(self).started,
    {
        match self.deck.cards.pop() {
            Some(card) => Ok(card),
            None => Err(String::from_str("No more cards in the deck to draw!")),
        }
    }

    /// Passes the turn of `player_id` to the next seat. Whose turn it was is
    /// not checked here. Refused with an error event and no change when the
    /// table has no seats.
    pub fn player_pass(&mut self, player_id: usize) -> (ev: Vec<GameEvent>)
        requires
            old(self).wf(),
        ensures
            final(self).wf(),
            pass_step(*old(self), player_id, *final(self), ev@),
    {
        let mut ev: Vec<GameEvent> = Vec::new();
        if self.players.len() == 0 {
            ev.push(GameEvent::GameError { message: String::from_str("No players at the table!") });
            return ev;
        }
        ev.push(GameEvent::PlayerPassed { player_id });
        self.current_player = self.next_player();
        ev.push(GameEvent::PlayerTurn { player_id: self.current_player });
        ev
    }

    /// Whether `player_id` may draw: it is their turn at a seated table and
    /// the deck is not empty.
    pub open spec fn accepts_draw(&self, player_id: usize) -> bool {
        player_id == self.current_player && self.current_player < self.seats().len() && self.deck_cards().len() > 0
    }

    /// The current player `player_id` draws the top card of the deck. If it
    /// may be played at once, DrawnCardPlayable says so and the turn stays;
    /// otherwise the turn passes. Refused with an error event and no change
    /// when it is not `player_id`'s turn or the deck is empty.
    pub fn draw_card(&mut self, player_id: usize) -> (ev: Vec<GameEvent>)
        requires
            old(self).wf(),
        ensures
            final(self).wf(),
            draw_step(*old(self), player_id, *final(self), ev@),
    {
        let mut ev: Vec<GameEvent> = Vec::new();
        if player_id != self.current_player || self.current_player >= self.players.len() {
            ev.push(GameEvent::GameError { message: String::from_str("It's not your turn!") });
            return ev;
        }
        if self.deck.cards.len() == 0 {
            ev.push(GameEvent::GameError { message: String::from_str("No more cards in the deck to draw!") });
            return ev;
        }
        let ghost g0 = *self;
        match self.no_card_to_play() {
            Ok(card) => {
                self.players[player_id].push_card(card);
                proof {
                    assert(self.hands() =~= g0.hands().update(
                        player_id as int,
                        g0.hands()[player_id as int].push(card),
                    ));
                    lemma_cards_held_update(
                        g0.hands(),
                        player_id as int,
                        g0.hands()[player_id as int].push(card),
                    );
                }
                ev.push(GameEvent::CardDraw { player_id, card });
                if valid_card(&card, &self.top_card) {
                    ev.push(GameEvent::DrawnCardPlayable { player_id });
                } else {
                    let mut passed = self.player_pass(player_id);
                    ev.append(&mut passed);
                }
            },
            Err(e) => {
                ev.push(GameEvent::GameError { message: e });
            },
        }
        ev
    }

    /// A challenge of a wild draw-four. The rule is not implemented: every
    /// challenge is refused with an error event and nothing changes.
    pub fn challenge(&self, challenger_id: usize, challenged_id: usize) -> (ev: Vec<GameEvent>)
        ensures
            ev@.len() == 1,
            ev@[0] is GameError,
    {
        let mut ev: Vec<GameEvent> = Vec::new();
        ev.push(GameEvent::GameError { message: String::from_str("Challenge not implemented") });
        ev
    }

    /// A copy of the hand of seat `player_id`; empty if there is no such seat.
    pub fn get_player_hand(&self, player_id: usize) -> (r: Vec<UnoCard>)
        ensures
            player_id < self.seats().len() ==> r@ == self.hands()[player_id as int],
            player_id >= self.seats().len() ==> r@.len() == 0,
    {
        let mut r: Vec<UnoCard> = Vec::new();
        if player_id < self.players.len() {
            let hand = &self.players[player_id].hand;
            let mut j: usize = 0;
            while j < hand.len()
                invariant
                    j <= hand@.len(),
                    r@ == hand@.take(j as int),
                decreases hand@.len() - j,
            {
                r.push(hand[j]);
                j = j + 1;
                assert(r@ =~= hand@.take(j as int));
            }
            assert(hand@.take(j as int) =~= hand@);
        }
        r
    }

    /// Each seat's name and number of cards in hand, in seat order.
    pub fn get_players_cards_count(&self) -> (r: Vec<(String, usize)>)
        ensures
            r@.len() == self.seats().len(),
            forall|i: int|
                0 <= i < r@.len() ==> (#[trigger] r@[i]).0 == self.seats()[i].name && r@[i].1
                    == self.hands()[i].len(),
    {
        let mut r: Vec<(String, usize)> = Vec::new();
        let mut i: usize = 0;
        while i < self.players.len()
            invariant
                i <= self.seats().len(),
                r@.len() == i,
                forall|k: int|
                    0 <= k < i ==> (#[trigger] r@[k]).0 == self.seats()[k].name && r@[k].1
                        == self.hands()[k].len(),
            decreases self.seats().len() - i,
        {
            r.push((self.players[i].name.clone(), self.players[i].hand.len()));
            i = i + 1;
        }
        r
    }
}

} // verus!
