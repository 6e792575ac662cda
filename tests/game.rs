use nesw::{
    CellState, Game, Grid, Rule, GRID_SIZE, MAX_ITERATIONS, PLAYER_ADD_MONEY, PLAYER_START_MONEY,
    SHOP_NB_RULES,
};

use CellState::{Neutral, Player1, Player2};

fn small_game(values: Vec<CellState>, size: usize) -> Game {
    let mut game = Game::new();
    game.size_grid = size;
    game.grid = Grid { width: size, height: size, values, toric: true };
    game
}

#[test]
fn new_game() {
    let game = Game::new();
    assert_eq!(game.size_grid, GRID_SIZE);
    assert_eq!(game.grid.values.len(), GRID_SIZE * GRID_SIZE);
    assert_eq!(game.iteration, 0);
    assert!(!game.round_over);
    assert!(game.round_result.is_none());
    assert_eq!(game.shop_first_player, 1);
    assert_eq!(game.shop.rules.len(), SHOP_NB_RULES);
    assert_eq!(game.player1.money, PLAYER_START_MONEY);
}

#[test]
fn stable_grid_ends_round_early() {
    let mut game = small_game(vec![Neutral; 16], 4);
    game.advance_iteration();
    assert!(game.round_over);
    assert_eq!(game.iteration, 1);
    assert!(game.iteration < MAX_ITERATIONS);
    let result = game.round_result.unwrap();
    assert_eq!(result.winner, Neutral);
    assert_eq!(result.player1_count, 0);
    assert_eq!(result.player2_count, 0);
    assert_eq!(game.player1.win, 0);
    assert_eq!(game.player2.win, 0);
    assert_eq!(game.shop_first_player, 1);
}

#[test]
fn advance_is_a_no_op_once_over() {
    let mut game = small_game(vec![Neutral; 16], 4);
    game.advance_iteration();
    let values = game.grid.values.clone();
    game.advance_iteration();
    assert_eq!(game.iteration, 1);
    assert_eq!(game.grid.values, values);
}

#[test]
fn winner_scores_and_loser_shops_first() {
    let mut values = vec![Neutral; 16];
    values[0] = Player1;
    values[10] = Player1;
    values[5] = Player2;
    let mut game = small_game(values, 4);
    game.advance_iteration();
    assert!(game.round_over);
    assert_eq!(game.player1.win, 1);
    assert_eq!(game.player2.win, 0);
    assert_eq!(game.shop_first_player, 2);
    assert_eq!(game.shop.shopping_player, 2);
    let result = game.round_result.unwrap();
    assert_eq!(result.winner, Player1);
    assert_eq!((result.player1_count, result.player2_count), (2, 1));
}

#[test]
fn player2_win() {
    let mut values = vec![Neutral; 16];
    values[3] = Player2;
    let mut game = small_game(values, 4);
    game.shop_first_player = 2;
    game.advance_iteration();
    assert_eq!(game.player2.win, 1);
    assert_eq!(game.shop_first_player, 1);
    assert_eq!(game.round_result.unwrap().winner, Player2);
}

#[test]
fn changing_grid_runs_until_the_cap() {
    // A lone player 1 cell walks right forever on a ring of four columns.
    let mut values = vec![Neutral; 16];
    values[0] = Player1;
    let mut game = small_game(values, 4);
    game.player1.rules = vec![Rule { top: Neutral, right: Neutral, bottom: Neutral, left: Player1 }];
    game.player2.rules = vec![Rule { top: Neutral, right: Neutral, bottom: Neutral, left: Neutral }];
    game.advance_iteration();
    assert!(!game.round_over);
    assert_eq!(game.iteration, 1);
    let mut ticks = 1;
    while !game.round_over {
        game.advance_iteration();
        ticks += 1;
        assert!(ticks <= MAX_ITERATIONS);
    }
    assert!(game.iteration <= MAX_ITERATIONS);
    assert_eq!(game.grid.count(Player1) + game.grid.count(Player2) + game.grid.count(Neutral), 16);
}

#[test]
fn new_round_tops_up_money_and_resets() {
    let mut game = small_game(vec![Neutral; 16], 4);
    game.advance_iteration();
    game.player1.money = 3;
    game.player1.rules = vec![Rule::from_code(7)];
    game.new_round();
    assert_eq!(game.player1.money, 3 + PLAYER_ADD_MONEY);
    assert_eq!(game.player2.money, PLAYER_START_MONEY + PLAYER_ADD_MONEY);
    assert_eq!(game.iteration, 0);
    assert!(!game.round_over);
    assert!(game.round_result.is_none());
    assert_eq!(game.grid.values.len(), 16);
    assert!(game.grid.toric);
    assert_eq!(game.shop.rules.len(), SHOP_NB_RULES);
    assert_eq!(game.player1.rules, vec![Rule::from_code(7)]);
    assert!(!game.shop.rules.contains(&Rule::from_code(7)));
}
