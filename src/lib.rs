pub mod card;
pub mod game;
pub mod game_state;
pub mod hand;
pub mod player;
pub mod rank;
pub mod score;
pub mod score_group;
pub mod suit;
pub mod utils;
