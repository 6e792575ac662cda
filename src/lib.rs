//! A two-player competitive cellular automaton on a toroidal grid, with an
//! economy between rounds.
pub mod constants;
pub mod types;
pub mod rule;
pub mod game;
pub mod grid;
pub mod player;
pub mod pool;
pub mod rule_picker;
pub mod shop;
mod random;

pub use constants::{
    ALLOW_NEUTRAL_RULE, GRID_SIZE, MAX_ITERATIONS, NB_DISTINCT_RULES, PLAYER_ADD_MONEY,
    PLAYER_MAX_RULES, PLAYER_MAX_SPAWN_PROBA, PLAYER_SPAWN_PROBA, PLAYER_START_MONEY,
    PLAYER_START_RULES, RULE_PICKER_NB_RULES, SHOP_ADD_SPAWN_PROBA, SHOP_NB_RULES,
    SHOP_PRICE_DELETE, SHOP_PRICE_RULE, SHOP_PRICE_SPAWN, SPAWN_SCALE,
};
pub use game::{Game, RoundResult};
pub use grid::Grid;
pub use player::Player;
pub use rule::Rule;
pub use rule_picker::RulePicker;
pub use shop::{Shop, ShopError};
pub use types::{CellState, Pos};
