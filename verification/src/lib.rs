pub mod game;
pub mod input;
pub mod moves;
pub mod player;
