use vstd::prelude::*;

verus! {

/// Largest number of rules a player may own.
pub const PLAYER_MAX_RULES: usize = 16;

/// Number of rules each player picks before the first round.
pub const PLAYER_START_RULES: usize = 4;

/// Money a player starts the match with.
pub const PLAYER_START_MONEY: usize = 0;

/// Money added to each balance at the start of every round (a top-up, not a reset).
pub const PLAYER_ADD_MONEY: usize = 2;

/// Spawn probabilities are counted in millionths: this value stands for certainty.
pub const SPAWN_SCALE: usize = 1_000_000;

/// Spawn probability a player starts with, in millionths (one in a thousand).
pub const PLAYER_SPAWN_PROBA: usize = 1_000;

/// Ceiling of a player's spawn probability, in millionths (one half). Two
/// players at the ceiling still sum to at most certainty.
pub const PLAYER_MAX_SPAWN_PROBA: usize = 500_000;

/// Size of the pool offered during the initial rule selection.
pub const RULE_PICKER_NB_RULES: usize = 20;

/// Size of the pool offered during each shopping phase.
pub const SHOP_NB_RULES: usize = 8;

/// Price of one rule of the shop.
pub const SHOP_PRICE_RULE: usize = 1;

/// Price of one spawn probability upgrade.
pub const SHOP_PRICE_SPAWN: usize = 1;

/// Price that gates a deletion; it is refunded to the acting player.
pub const SHOP_PRICE_DELETE: usize = 1;

/// Increase of the spawn probability bought by one upgrade, in millionths.
pub const SHOP_ADD_SPAWN_PROBA: usize = 100;

/// Whether generated pools may offer the rule whose four neighbours are all neutral.
pub const ALLOW_NEUTRAL_RULE: bool = true;

/// Side of the square grid.
pub const GRID_SIZE: usize = 64;

/// Number of ticks after which a round ends at the latest.
pub const MAX_ITERATIONS: usize = 128;

/// Number of distinct rules: three states for each of four neighbours.
pub const NB_DISTINCT_RULES: usize = 81;

} // verus!
