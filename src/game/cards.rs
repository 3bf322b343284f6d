use vstd::prelude::*;

use crate::text::digit_text;

verus! {

/// The four suits of the deck.
#[allow(non_camel_case_types)]
#[derive(PartialEq, Eq, Structural, Clone, Copy, Debug)]
pub enum Color {
    RED,
    GREEN,
    BLUE,
    YELLOW,
}

/// Face values of the number cards.
#[allow(non_camel_case_types)]
#[derive(PartialEq, Eq, Structural, Clone, Copy, Debug)]
pub enum Number {
    ZERO,
    ONE,
    TWO,
    THREE,
    FOUR,
    FIVE,
    SIX,
    SEVEN,
    EIGHT,
    NINE,
}

/// The three colored action kinds.
#[allow(non_camel_case_types)]
#[derive(PartialEq, Eq, Structural, Clone, Copy, Debug)]
pub enum Action {
    SKIP,
    REVERSE,
    DRAWTWO,
}

/// The two kinds of wild card.
#[allow(non_camel_case_types)]
#[derive(PartialEq, Eq, Structural, Clone, Copy, Debug)]
pub enum WildType {
    WILD,
    DRAWFOUR,
}

/// A single card. A wild card carries no color while it sits in the deck and
/// gets the color its player asks for when it is played.
#[derive(PartialEq, Eq, Structural, Clone, Copy, Debug)]
pub enum UnoCard {
    NumberCard(Color, Number),
    ActionCard(Color, Action),
    WildCard(Option<Color>, WildType),
}

/// A number card taken apart into its fields.
pub struct NumberCard {
    pub color: Color,
    pub number: Number,
}

/// An action card taken apart into its fields.
pub struct ActionCard {
    pub color: Color,
    pub action: Action,
}

/// A wild card taken apart into its fields.
pub struct WildCard {
    pub color: Option<Color>,
    pub wild_type: WildType,
}

/// The draw pile; cards are drawn from the end of `cards`.
pub struct UnoDeck {
    pub cards: Vec<UnoCard>,
}

// ----- mathematical model -----

/// The color of a card, absent for a wild card that has not been given one.
pub open spec fn color_of(c: UnoCard) -> Option<Color> {
    match c {
        UnoCard::NumberCard(col, _) => Some(col),
        UnoCard::ActionCard(col, _) => Some(col),
        UnoCard::WildCard(col, _) => col,
    }
}

/// The face value of a number card.
pub open spec fn number_of(c: UnoCard) -> Option<Number> {
    match c {
        UnoCard::NumberCard(_, n) => Some(n),
        _ => None,
    }
}

pub open spec fn color_code(c: Color) -> u8 {
    match c {
        Color::RED => 0,
        Color::GREEN => 1,
        Color::BLUE => 2,
        Color::YELLOW => 3,
    }
}

pub open spec fn color_from_code(v: u8) -> Option<Color> {
    if v == 0 {
        Some(Color::RED)
    } else if v == 1 {
        Some(Color::GREEN)
    } else if v == 2 {
        Some(Color::BLUE)
    } else if v == 3 {
        Some(Color::YELLOW)
    } else {
        None
    }
}

pub open spec fn digit(n: Number) -> u8 {
    match n {
        Number::ZERO => 0,
        Number::ONE => 1,
        Number::TWO => 2,
        Number::THREE => 3,
        Number::FOUR => 4,
        Number::FIVE => 5,
        Number::SIX => 6,
        Number::SEVEN => 7,
        Number::EIGHT => 8,
        Number::NINE => 9,
    }
}

pub open spec fn number_from_digit(v: u8) -> Option<Number> {
    if v == 0 {
        Some(Number::ZERO)
    } else if v == 1 {
        Some(Number::ONE)
    } else if v == 2 {
        Some(Number::TWO)
    } else if v == 3 {
        Some(Number::THREE)
    } else if v == 4 {
        Some(Number::FOUR)
    } else if v == 5 {
        Some(Number::FIVE)
    } else if v == 6 {
        Some(Number::SIX)
    } else if v == 7 {
        Some(Number::SEVEN)
    } else if v == 8 {
        Some(Number::EIGHT)
    } else if v == 9 {
        Some(Number::NINE)
    } else {
        None
    }
}

/// Scoring value of a card left in a hand: its digit, 20 for an action card,
/// 50 for a wild card.
pub open spec fn points(c: UnoCard) -> int {
    match c {
        UnoCard::NumberCard(_, n) => digit(n) as int,
        UnoCard::ActionCard(_, _) => 20,
        UnoCard::WildCard(_, _) => 50,
    }
}

/// The kind of an action card.
pub open spec fn action_of(c: UnoCard) -> Option<Action> {
    match c {
        UnoCard::ActionCard(_, a) => Some(a),
        _ => None,
    }
}

/// Whether `card` may be laid on `top`.
pub open spec fn playable(card: UnoCard, top: Option<UnoCard>) -> bool {
    match top {
        None => true,
        Some(t) => {
            ||| card is WildCard
            ||| color_of(card) == color_of(t)
            ||| (number_of(card) is Some && number_of(card) == number_of(t))
            ||| (card matches UnoCard::ActionCard(_, a1) && t matches UnoCard::ActionCard(_, a2)
                && a1 == a2)
        },
    }
}

/// A wild card is played with the color its player asks for; other cards are
/// played as they are.
pub open spec fn with_color(card: UnoCard, color: Color) -> UnoCard {
    match card {
        UnoCard::WildCard(_, wt) => UnoCard::WildCard(Some(color), wt),
        _ => card,
    }
}

/// A card as it lies in the deck: a wild card loses the color it was played with.
pub open spec fn uncolored(card: UnoCard) -> UnoCard {
    match card {
        UnoCard::WildCard(_, wt) => UnoCard::WildCard(None, wt),
        _ => card,
    }
}

/// A wild card whose color is still unset cannot lie on the discard pile.
pub open spec fn colored(card: UnoCard) -> bool {
    color_of(card) is Some
}

pub const DECK_SIZE: usize = 108;

/// The card at position `i` of a freshly built deck: per color the digits
/// 0 to 9 and then 1 to 9 (76 number cards), then per color two rounds of
/// skip, reverse and draw-two (24 action cards), then four times a wild and
/// a wild draw-four (8 wild cards).
pub open spec fn fresh_card(i: int) -> UnoCard {
    if i < 76 {
        let r = i % 19;
        let d = if r < 10 {
            r
        } else {
            r - 9
        };
        UnoCard::NumberCard(
            color_from_code((i / 19) as u8).unwrap(),
            number_from_digit(d as u8).unwrap(),
        )
    } else if i < 100 {
        let j = i - 76;
        let a = if j % 3 == 0 {
            Action::SKIP
        } else if j % 3 == 1 {
            Action::REVERSE
        } else {
            Action::DRAWTWO
        };
        UnoCard::ActionCard(color_from_code((j / 6) as u8).unwrap(), a)
    } else {
        let k = i - 100;
        UnoCard::WildCard(
            None,
            if k % 2 == 0 {
                WildType::WILD
            } else {
                WildType::DRAWFOUR
            },
        )
    }
}

/// The 108 cards of a fresh deck, in the order they are built.
pub open spec fn fresh_deck() -> Seq<UnoCard> {
    Seq::new(DECK_SIZE as nat, |i: int| fresh_card(i))
}

/// The legality rules: a wild card goes on anything; anything goes on an
/// empty pile; a number card goes on a number card of its color or digit; an
/// action card goes on an action card of its color or kind.
pub proof fn lemma_playable_rules(card: UnoCard, top: Option<UnoCard>)
    ensures
        card is WildCard ==> playable(card, top),
        top is None ==> playable(card, top),
        card is NumberCard && top is Some && top.unwrap() is NumberCard ==> (playable(card, top) <==> (
        color_of(card) == color_of(top.unwrap()) || number_of(card) == number_of(top.unwrap()))),
        card is ActionCard && top is Some && top.unwrap() is ActionCard ==> (playable(card, top) <==> (
        color_of(card) == color_of(top.unwrap()) || action_of(card) == action_of(top.unwrap()))),
{
}

/// The name of a color, right-aligned in six columns.
pub open spec fn color_text(c: Color) -> Seq<char> {
    match c {
        Color::RED => "   RED"@,
        Color::GREEN => " GREEN"@,
        Color::BLUE => "  BLUE"@,
        Color::YELLOW => "YELLOW"@,
    }
}

/// The name of an action, left-aligned in seven columns.
pub open spec fn action_text(a: Action) -> Seq<char> {
    match a {
        Action::SKIP => "SKIP   "@,
        Action::REVERSE => "REVERSE"@,
        Action::DRAWTWO => "DRAWTWO"@,
    }
}

/// The name of a wild kind, left-aligned in seven columns.
pub open spec fn wild_text(w: WildType) -> Seq<char> {
    match w {
        WildType::WILD => "WILD   "@,
        WildType::DRAWFOUR => "DRAWFOUR"@,
    }
}

/// How a card reads on screen.
pub open spec fn card_text(c: UnoCard) -> Seq<char> {
    match c {
        UnoCard::NumberCard(col, n) => "Number Card: "@ + color_text(col) + " "@ + digit_text(digit(n) as int),
        UnoCard::ActionCard(col, a) => "Action Card: "@ + color_text(col) + " "@ + action_text(a),
        UnoCard::WildCard(Some(col), w) => "  Wild Card: "@ + color_text(col) + " "@ + wild_text(w),
        UnoCard::WildCard(None, w) => "  Wild Card: "@ + wild_text(w),
    }
}

// ----- executable -----

impl UnoCard {
    /// The card's color; an error for a wild card that has not been given one.
    pub fn get_color(&self) -> (r: Result<&Color, &'static str>)
        ensures
            color_of(*self) is Some ==> r == Ok::<&Color, &'static str>(&color_of(*self).unwrap()),
            color_of(*self) is None <==> r is Err,
    {
        match self {
            UnoCard::NumberCard(color, _) => Ok(color),
            UnoCard::ActionCard(color, _) => Ok(color),
            UnoCard::WildCard(color, _) => match color {
                Some(c) => Ok(c),
                None => Err("Wild card must have a color when used!"),
            },
        }
    }

    /// The face value of a number card, `None` for any other card.
    pub fn get_number(&self) -> (r: Option<&Number>)
        ensures
            number_of(*self) is Some ==> r == Some(&number_of(*self).unwrap()),
            number_of(*self) is None <==> r is None,
    {
        match self {
            UnoCard::NumberCard(_, number) => Some(number),
            UnoCard::ActionCard(_, _) => None,
            UnoCard::WildCard(_, _) => None,
        }
    }

    /// The points this card counts against a hand at the end of a game.
    pub fn get_value(&self) -> (r: i32)
        ensures
            r == points(*self),
    {
        match self {
            UnoCard::NumberCard(_, number) => number.to_u8() as i32,
            UnoCard::WildCard(_, _) => 50,
            UnoCard::ActionCard(_, _) => 20,
        }
    }
}

/// Whether `card` may be played on `top_card`: anything goes on an empty
/// pile; a wild card goes on anything; otherwise the colors match, or both
/// are number cards of one digit, or both are action cards of one kind.
pub fn valid_card(card: &UnoCard, top_card: &Option<UnoCard>) -> (r: bool)
    ensures
        r == playable(*card, *top_card),
{
    match top_card {
        Some(top) => is_wild_card(card) || same_color(card, top) || same_number(card, top)
            || same_action(card, top),
        None => true,
    }
}

fn is_wild_card(card: &UnoCard) -> (r: bool)
    ensures
        r == (*card is WildCard),
{
    match card {
        UnoCard::WildCard(_, _) => true,
        _ => false,
    }
}

fn same_color(card: &UnoCard, top_card: &UnoCard) -> (r: bool)
    ensures
        r == (color_of(*card) == color_of(*top_card)),
{
    let a = match card.get_color() {
        Ok(c) => Some(*c),
        Err(_) => None,
    };
    let b = match top_card.get_color() {
        Ok(c) => Some(*c),
        Err(_) => None,
    };
    match (a, b) {
        (Some(x), Some(y)) => x == y,
        (None, None) => true,
        _ => false,
    }
}

fn same_number(card: &UnoCard, top_card: &UnoCard) -> (r: bool)
    ensures
        r == (number_of(*card) is Some && number_of(*card) == number_of(*top_card)),
{
    match (card.get_number(), top_card.get_number()) {
        (Some(x), Some(y)) => *x == *y,
        _ => false,
    }
}

fn same_action(card: &UnoCard, top_card: &UnoCard) -> (r: bool)
    ensures
        r == (*card matches UnoCard::ActionCard(_, a1) && *top_card matches UnoCard::ActionCard(
            _,
            a2,
        ) && a1 == a2),
{
    match (card, top_card) {
        (UnoCard::ActionCard(_, action1), UnoCard::ActionCard(_, action2)) => *action1 == *action2,
        _ => false,
    }
}

impl Color {
    /// The color with code 0 (red) to 3 (yellow), `None` for any other code.
    pub fn from_u8(val: u8) -> (r: Option<Color>)
        ensures
            r == color_from_code(val),
    {
        match val {
            0 => Some(Color::RED),
            1 => Some(Color::GREEN),
            2 => Some(Color::BLUE),
            3 => Some(Color::YELLOW),
            _ => None,
        }
    }

    pub fn to_u8(&self) -> (r: u8)
        ensures
            r == color_code(*self),
            color_from_code(r) == Some(*self),
    {
        match self {
            Color::RED => 0,
            Color::GREEN => 1,
            Color::BLUE => 2,
            Color::YELLOW => 3,
        }
    }
}

impl Number {
    /// The number card face for a digit 0 to 9, `None` for any other value.
    pub fn from_u8(val: u8) -> (r: Option<Number>)
        ensures
            r == number_from_digit(val),
    {
        match val {
            0 => Some(Number::ZERO),
            1 => Some(Number::ONE),
            2 => Some(Number::TWO),
            3 => Some(Number::THREE),
            4 => Some(Number::FOUR),
            5 => Some(Number::FIVE),
            6 => Some(Number::SIX),
            7 => Some(Number::SEVEN),
            8 => Some(Number::EIGHT),
            9 => Some(Number::NINE),
            _ => None,
        }
    }

    pub fn to_u8(&self) -> (r: u8)
        ensures
            r == digit(*self),
            r <= 9,
            number_from_digit(r) == Some(*self),
    {
        match self {
            Number::ZERO => 0,
            Number::ONE => 1,
            Number::TWO => 2,
            Number::THREE => 3,
            Number::FOUR => 4,
            Number::FIVE => 5,
            Number::SIX => 6,
            Number::SEVEN => 7,
            Number::EIGHT => 8,
            Number::NINE => 9,
        }
    }
}

/// The card at position `i` of a fresh deck.
fn build_card(i: usize) -> (r: UnoCard)
    requires
        i < DECK_SIZE,
    ensures
        r == fresh_card(i as int),
{
    if i < 76 {
        let r = i % 19;
        let d = if r < 10 {
            r
        } else {
            r - 9
        };
        let color = Color::from_u8((i / 19) as u8);
        let number = Number::from_u8(d as u8);
        UnoCard::NumberCard(color.unwrap(), number.unwrap())
    } else if i < 100 {
        let j = i - 76;
        let a = if j % 3 == 0 {
            Action::SKIP
        } else if j % 3 == 1 {
            Action::REVERSE
        } else {
            Action::DRAWTWO
        };
        let color = Color::from_u8((j / 6) as u8);
        UnoCard::ActionCard(color.unwrap(), a)
    } else {
        let k = i - 100;
        UnoCard::WildCard(
            None,
            if k % 2 == 0 {
                WildType::WILD
            } else {
                WildType::DRAWFOUR
            },
        )
    }
}

/// Relies on rand's `SliceRandom::shuffle` with the thread-local generator:
/// it only swaps elements, so the cards stay the same and only their order
/// changes. Which order comes out is left open.
#[verifier::external_body]
fn shuffle_cards(cards: &mut Vec<UnoCard>)
    ensures
        final(cards)@.len() == old(cards)@.len(),
        final(cards)@.to_multiset() == old(cards)@.to_multiset(),
{
    rand::seq::SliceRandom::shuffle(cards.as_mut_slice(), &mut rand::thread_rng());
}

impl UnoDeck {
    /// A full deck of 108 cards in the fixed order of `fresh_deck`.
    pub fn new() -> (r: UnoDeck)
        ensures
            r.cards@ == fresh_deck(),
    {
        let mut cards: Vec<UnoCard> = Vec::new();
        let mut i: usize = 0;
        while i < DECK_SIZE
            invariant
                i <= DECK_SIZE,
                cards@ == fresh_deck().take(i as int),
            decreases DECK_SIZE - i,
        {
            let c = build_card(i);
            cards.push(c);
            i = i + 1;
            assert(cards@ =~= fresh_deck().take(i as int));
        }
        assert(cards@ =~= fresh_deck());
        UnoDeck { cards }
    }

    /// Puts the cards in a random order; the same cards stay in the deck.
    pub fn shuffle(&mut self)
        ensures
            final(self).cards@.len() == old(self).cards@.len(),
            final(self).cards@.to_multiset() == old(self).cards@.to_multiset(),
    {
        shuffle_cards(&mut self.cards);
    }
}

impl Color {
    pub fn to_text(&self) -> (r: String)
        ensures
            r@ == color_text(*self),
    {
        match self {
            Color::RED => String::from_str("   RED"),
            Color::GREEN => String::from_str(" GREEN"),
            Color::BLUE => String::from_str("  BLUE"),
            Color::YELLOW => String::from_str("YELLOW"),
        }
    }
}

impl Number {
    pub fn to_text(&self) -> (r: String)
        ensures
            r@ == digit_text(digit(*self) as int),
    {
        let mut s = String::new();
        crate::text::push_decimal(&mut s, self.to_u8() as u64);
        proof {
            assert(s@ =~= digit_text(digit(*self) as int));
        }
        s
    }
}

impl Action {
    pub fn to_text(&self) -> (r: String)
        ensures
            r@ == action_text(*self),
    {
        match self {
            Action::SKIP => String::from_str("SKIP   "),
            Action::REVERSE => String::from_str("REVERSE"),
            Action::DRAWTWO => String::from_str("DRAWTWO"),
        }
    }
}

impl WildType {
    pub fn to_text(&self) -> (r: String)
        ensures
            r@ == wild_text(*self),
    {
        match self {
            WildType::WILD => String::from_str("WILD   "),
            WildType::DRAWFOUR => String::from_str("DRAWFOUR"),
        }
    }
}

impl UnoCard {
    /// How the card reads on screen, e.g. `Number Card:    RED 5`.
    pub fn to_text(&self) -> (r: String)
        ensures
            r@ == card_text(*self),
    {
        match self {
            UnoCard::NumberCard(color, number) => {
                let mut s = String::from_str("Number Card: ");
                s.append(color.to_text().as_str());
                s.append(" ");
                s.append(number.to_text().as_str());
                s
            },
            UnoCard::ActionCard(color, action) => {
                let mut s = String::from_str("Action Card: ");
                s.append(color.to_text().as_str());
                s.append(" ");
                s.append(action.to_text().as_str());
                s
            },
            UnoCard::WildCard(color, wild_type) => {
                let mut s = String::from_str("  Wild Card: ");
                match color {
                    Some(c) => {
                        s.append(c.to_text().as_str());
                        s.append(" ");
                    },
                    None => {},
                }
                s.append(wild_type.to_text().as_str());
                s
            },
        }
    }
}

} // verus!
