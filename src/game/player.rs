use vstd::prelude::*;

use crate::game::cards::{card_text, UnoCard};
use crate::text::{decimal, pad_left, pad_right, push_decimal, push_padded_left, push_padded_right};

verus! {

/// A seat at the table: a stable slot id, a display name and a hand.
pub struct Player {
    pub name: String,
    pub hand: Vec<UnoCard>,
    pub id: usize,
}

impl Player {
    /// The cards in this player's hand, in the order they were received.
    pub open spec fn hand(&self) -> Seq<UnoCard> {
        self.hand@
    }

    pub fn new(name: &str, id: usize) -> (r: Player)
        ensures
            r.name@ == name@,
            r.id == id,
            r.hand() == Seq::<UnoCard>::empty(),
    {
        Player { name: String::from_str(name), hand: Vec::new(), id }
    }

    pub fn push_card(&mut self, card: UnoCard)
        ensures
            final(self).hand() == old(self).hand().push(card),
            final(self).name == old(self).name,
            final(self).id == old(self).id,
    {
        self.hand.push(card);
    }

    pub fn display_hand(&self) -> (r: &Vec<UnoCard>)
        ensures
            r@ == self.hand(),
    {
        &self.hand
    }

    /// Takes the card at `card_idx` out of the hand; an error if there is none.
    pub fn remove_card(&mut self, card_idx: usize) -> (r: Result<UnoCard, String>)
        ensures
            final(self).name == old(self).name,
            final(self).id == old(self).id,
            card_idx < old(self).hand().len() ==> r == Ok::<UnoCard, String>(
                old(self).hand()[card_idx as int],
            ) && final(self).hand() == old(self).hand().remove(card_idx as int),
            card_idx >= old(self).hand().len() ==> r is Err && final(self).hand() == old(
                self,
            ).hand(),
    {
        if card_idx >= self.hand.len() {
            return Err(String::from_str("Invalid card index"));
        }
        Ok(self.hand.remove(card_idx))
    }
}

/// One line of a hand table: the index right-aligned in five columns, then
/// the card.
pub open spec fn hand_row(i: nat, card: UnoCard) -> Seq<char> {
    pad_left(decimal(i), 5) + " | "@ + pad_right(card_text(card), 15) + "\n"@
}

pub open spec fn hand_rows(hand: Seq<UnoCard>) -> Seq<char>
    decreases hand.len(),
{
    if hand.len() == 0 {
        Seq::empty()
    } else {
        hand_rows(hand.drop_last()) + hand_row((hand.len() - 1) as nat, hand.last())
    }
}

/// A player's hand as a table: a header with the name, a row for drawing
/// (index -1), then one row per card.
pub open spec fn hand_table(name: Seq<char>, hand: Seq<UnoCard>) -> Seq<char> {
    "====================================\n"@ + "Player: "@ + pad_right(name, 20) + "\n"@ + "------------------------------------\n"@ + pad_right("Index"@, 5)
        + " | "@ + pad_right("Card"@, 15) + "\n"@ + "------------------------------------\n"@ + pad_left("-1"@, 5) + " | "@
        + pad_right("  Draw Card"@, 15) + "\n"@ + hand_rows(hand) + "====================================\n"@
}

/// Renders `hand_table`.
pub fn hand_table_text(name: &str, hand: &Vec<UnoCard>) -> (r: String)
    ensures
        r@ == hand_table(name@, hand@),
{
    let mut s = String::from_str("====================================\n");
    s.append("Player: ");
    push_padded_right(&mut s, name, 20);
    s.append("\n");
    s.append("------------------------------------\n");
    push_padded_right(&mut s, "Index", 5);
    s.append(" | ");
    push_padded_right(&mut s, "Card", 15);
    s.append("\n");
    s.append("------------------------------------\n");
    push_padded_left(&mut s, "-1", 5);
    s.append(" | ");
    push_padded_right(&mut s, "  Draw Card", 15);
    s.append("\n");
    let ghost head = s@;
    let mut i: usize = 0;
    proof {
        assert(hand@.take(0) =~= Seq::<UnoCard>::empty());
        assert(s@ =~= head + hand_rows(hand@.take(0)));
    }
    while i < hand.len()
        invariant
            i <= hand@.len(),
            s@ == head + hand_rows(hand@.take(i as int)),
        decreases hand@.len() - i,
    {
        let ghost before = s@;
        let mut index = String::new();
        push_decimal(&mut index, i as u64);
        push_padded_left(&mut s, index.as_str(), 5);
        s.append(" | ");
        let card = hand[i].to_text();
        push_padded_right(&mut s, card.as_str(), 15);
        s.append("\n");
        proof {
            let t = hand@.take(i + 1);
            assert(t.drop_last() =~= hand@.take(i as int));
            assert(index@ =~= decimal(i as nat));
            assert(s@ =~= before + hand_row(i as nat, hand@[i as int]));
        }
        i = i + 1;
    }
    s.append("====================================\n");
    proof {
        assert(hand@.take(i as int) =~= hand@);
    }
    s
}

impl Player {
    /// The hand as a table, headed by the player's name.
    pub fn to_text(&self) -> (r: String)
        ensures
            r@ == hand_table(self.name@, self.hand()),
    {
        hand_table_text(self.name.as_str(), &self.hand)
    }
}

} // verus!
