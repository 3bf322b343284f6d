pub mod cards;
pub mod events;
pub mod player;
pub mod uno_game;

pub use cards::{
    valid_card, Action, ActionCard, Color, Number, NumberCard, UnoCard, UnoDeck, WildCard,
    WildType,
};
pub use player::Player;
pub use uno_game::UnoGame;
