use vstd::prelude::*;

use crate::game::cards::{playable, valid_card, UnoCard, UnoDeck};
use crate::game::player::{hand_table, hand_table_text};

verus! {

/// A player of a game run at one console: a name and a hand.
pub struct Player {
    pub name: String,
    pub hand: Vec<UnoCard>,
}

impl Player {
    pub fn new(name: &str) -> (r: Player)
        ensures
            r.name@ == name@,
            r.hand@.len() == 0,
    {
        Player { name: String::from_str(name), hand: Vec::new() }
    }

    pub fn display_hand(&self) -> (r: &Vec<UnoCard>)
        ensures
            r@ == self.hand@,
    {
        &self.hand
    }

    /// Plays card `card_idx` on `top_card`: if the card exists and may go
    /// there, it leaves the hand and is returned; otherwise an error and the
    /// hand stays as it is.
    pub fn can_play_card(&mut self, card_idx: usize, top_card: Option<&UnoCard>) -> (r: Result<
        UnoCard,
        String,
    >)
        ensures
            final(self).name == old(self).name,
            ({
                let top = match top_card {
                    Some(t) => Some(*t),
                    None => None,
                };
                &&& (card_idx < old(self).hand@.len() && playable(old(self).hand@[card_idx as int], top))
                    ==> r == Ok::<UnoCard, String>(old(self).hand@[card_idx as int]) && final(self).hand@
                    == old(self).hand@.remove(card_idx as int)
                &&& !(card_idx < old(self).hand@.len() && playable(old(self).hand@[card_idx as int], top))
                    ==> r is Err && final(self).hand@ == old(self).hand@
            }),
    {
        if card_idx >= self.hand.len() {
            return Err(String::from_str("Invalid card index"));
        }
        let top = match top_card {
            Some(t) => Some(*t),
            None => None,
        };
        let card = self.hand[card_idx];
        if valid_card(&card, &top) {
            self.hand.remove(card_idx);
            Ok(card)
        } else {
            Err(String::from_str("Cannot play this card"))
        }
    }

    /// Draws `num_cards` cards from the end of the deck into the hand.
    pub fn draw_cards(&mut self, deck: &mut UnoDeck, num_cards: usize)
        requires
            num_cards <= old(deck).cards@.len(),
        ensures
            final(self).name == old(self).name,
            final(deck).cards@ == old(deck).cards@.take(old(deck).cards@.len() - num_cards),
            final(self).hand@ == old(self).hand@ + Seq::new(
                num_cards as nat,
                |j: int| old(deck).cards@[old(deck).cards@.len() - 1 - j],
            ),
    {
        let ghost d0 = deck.cards@;
        let ghost h0 = self.hand@;
        let mut t: usize = 0;
        while t < num_cards
            invariant
                t <= num_cards,
                num_cards <= d0.len(),
                deck.cards@ == d0.take(d0.len() - t),
                self.hand@ == h0 + Seq::new(t as nat, |j: int| d0[d0.len() - 1 - j]),
                self.name == old(self).name,
            decreases num_cards - t,
        {
            let card = deck.cards.pop().unwrap();
            self.hand.push(card);
            t = t + 1;
            assert(deck.cards@ =~= d0.take(d0.len() - t));
            assert(self.hand@ =~= h0 + Seq::new(t as nat, |j: int| d0[d0.len() - 1 - j]));
        }
    }

    /// The hand as a table, headed by the player's name.
    pub fn to_text(&self) -> (r: String)
        ensures
            r@ == hand_table(self.name@, self.hand@),
    {
        hand_table_text(self.name.as_str(), &self.hand)
    }
}

} // verus!
