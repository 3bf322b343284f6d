pub mod game;
pub mod player;
pub mod ports;
pub mod protocol;
pub mod registry;
pub mod room;
pub mod text;
