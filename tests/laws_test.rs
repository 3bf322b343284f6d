use uno::game::{valid_card, Action, Color, Number, UnoCard, WildType};

#[test]
fn wild_cards_go_on_anything() {
    let top = Some(UnoCard::ActionCard(Color::GREEN, Action::DRAWTWO));
    assert!(valid_card(&UnoCard::WildCard(Some(Color::RED), WildType::WILD), &top));
    assert!(valid_card(&UnoCard::WildCard(None, WildType::DRAWFOUR), &top));
}

#[test]
fn number_cards_match_by_color_or_digit() {
    let top = Some(UnoCard::NumberCard(Color::RED, Number::FIVE));
    assert!(valid_card(&UnoCard::NumberCard(Color::BLUE, Number::FIVE), &top));
    assert!(valid_card(&UnoCard::NumberCard(Color::RED, Number::TWO), &top));
    assert!(!valid_card(&UnoCard::NumberCard(Color::BLUE, Number::TWO), &top));
    assert!(!valid_card(&UnoCard::ActionCard(Color::BLUE, Action::SKIP), &top));
}

#[test]
fn action_cards_match_by_color_or_kind() {
    let top = Some(UnoCard::ActionCard(Color::RED, Action::REVERSE));
    assert!(valid_card(&UnoCard::ActionCard(Color::BLUE, Action::REVERSE), &top));
    assert!(valid_card(&UnoCard::ActionCard(Color::RED, Action::SKIP), &top));
    assert!(!valid_card(&UnoCard::ActionCard(Color::BLUE, Action::SKIP), &top));
    assert!(valid_card(&UnoCard::ActionCard(Color::BLUE, Action::SKIP), &None));
}

#[test]
fn colored_wild_on_top_matches_by_color() {
    let top = Some(UnoCard::WildCard(Some(Color::GREEN), WildType::WILD));
    assert!(valid_card(&UnoCard::NumberCard(Color::GREEN, Number::ONE), &top));
    assert!(!valid_card(&UnoCard::NumberCard(Color::RED, Number::ONE), &top));
}

#[test]
fn color_and_number_codes() {
    assert_eq!(Color::from_u8(0), Some(Color::RED));
    assert_eq!(Color::from_u8(3), Some(Color::YELLOW));
    assert_eq!(Color::from_u8(4), None);
    assert_eq!(Color::BLUE.to_u8(), 2);
    assert_eq!(Number::from_u8(9), Some(Number::NINE));
    assert_eq!(Number::from_u8(10), None);
    assert_eq!(Number::SEVEN.to_u8(), 7);
}

#[test]
fn card_values_and_fields() {
    assert_eq!(UnoCard::NumberCard(Color::RED, Number::EIGHT).get_value(), 8);
    assert_eq!(UnoCard::ActionCard(Color::RED, Action::SKIP).get_value(), 20);
    assert_eq!(UnoCard::WildCard(None, WildType::DRAWFOUR).get_value(), 50);
    assert!(UnoCard::WildCard(None, WildType::WILD).get_color().is_err());
    assert_eq!(UnoCard::WildCard(Some(Color::BLUE), WildType::WILD).get_color(), Ok(&Color::BLUE));
    assert_eq!(UnoCard::NumberCard(Color::RED, Number::ONE).get_number(), Some(&Number::ONE));
    assert_eq!(UnoCard::ActionCard(Color::RED, Action::SKIP).get_number(), None);
}
