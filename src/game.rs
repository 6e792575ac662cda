use vstd::prelude::*;

use crate::constants::{
    ALLOW_NEUTRAL_RULE, GRID_SIZE, MAX_ITERATIONS, PLAYER_ADD_MONEY, PLAYER_SPAWN_PROBA,
    SHOP_NB_RULES,
};
use crate::grid::{count_of, seedable, Grid, GridView};
use crate::player::{fresh_player, Player, PlayerView};
use crate::pool::valid_pool;
use crate::shop::{Shop, ShopView};
use crate::types::{CellState, Pos};

verus! {

/// How a round ended: the winner (`Neutral` for a draw) and both players'
/// cell counts.
#[derive(PartialEq, Eq, Structural, Clone, Copy, Debug)]
pub struct RoundResult {
    pub winner: CellState,
    pub player1_count: usize,
    pub player2_count: usize,
}

/// The match: two players, the grid of the current round, the shop, and the
/// state of the round.
pub struct Game {
    pub player1: Player,
    pub player2: Player,
    pub grid: Grid,
    pub size_grid: usize,
    pub shop: Shop,
    pub iteration: usize,
    pub round_over: bool,
    pub round_result: Option<RoundResult>,
    /// The player who shops first after this round: 1 or 2.
    pub shop_first_player: u8,
}

/// The mathematical value of a match.
pub struct GameView {
    pub player1: PlayerView,
    pub player2: PlayerView,
    pub grid: GridView,
    pub size_grid: nat,
    pub shop: ShopView,
    pub iteration: nat,
    pub round_over: bool,
    pub round_result: Option<RoundResult>,
    pub shop_first_player: u8,
}

impl View for Game {
    type V = GameView;

    open spec fn view(&self) -> GameView {
        GameView {
            player1: self.player1@,
            player2: self.player2@,
            grid: self.grid@,
            size_grid: self.size_grid as nat,
            shop: self.shop@,
            iteration: self.iteration as nat,
            round_over: self.round_over,
            round_result: self.round_result,
            shop_first_player: self.shop_first_player,
        }
    }
}

/// The result of a round that ended with counts `p1` and `p2`.
pub open spec fn result_of(p1: nat, p2: nat) -> RoundResult {
    RoundResult {
        winner: if p1 > p2 {
            CellState::Player1
        } else if p2 > p1 {
            CellState::Player2
        } else {
            CellState::Neutral
        },
        player1_count: p1 as usize,
        player2_count: p2 as usize,
    }
}

impl Game {
    /// The parts fit together: a valid square grid of the match's size,
    /// players under their spawn ceiling, a valid shop, and an iteration
    /// counter below the cap while the round runs.
    pub open spec fn wf(self) -> bool {
        &&& self.grid.wf()
        &&& self.grid.width == self.size_grid
        &&& self.player1.wf()
        &&& self.player2.wf()
        &&& self.shop.wf()
        &&& (self.shop_first_player == 1 || self.shop_first_player == 2)
        &&& self.iteration <= MAX_ITERATIONS
        &&& (!self.round_over ==> self.iteration < MAX_ITERATIONS)
        &&& (!self.round_over ==> self.round_result is None)
    }

    /// A fresh shop for the next shopping phase: nothing bought, the right
    /// player first, and rules that neither player owns.
    pub open spec fn has_fresh_shop(self) -> bool {
        &&& self.shop.is_fresh(self.shop_first_player)
        &&& self.shop.rules@.len() == SHOP_NB_RULES
        &&& valid_pool(self.shop.rules@, SHOP_NB_RULES as nat, self.player1.rules@, self.player2.rules@, ALLOW_NEUTRAL_RULE)
    }

    /// Whether `self` is `before` with the round scored on `self.grid`: the
    /// player with strictly more cells gets a win and the other shops first;
    /// a draw changes neither wins nor the shopping order.
    pub open spec fn scored_from(self, before: Game) -> bool {
        let p1 = count_of(self.grid.values@, CellState::Player1);
        let p2 = count_of(self.grid.values@, CellState::Player2);
        &&& self.round_over
        &&& self.round_result == Some(result_of(p1, p2))
        &&& self.player1@ == (PlayerView {
            win: before.player1@.win + if p1 > p2 { 1nat } else { 0nat },
            ..before.player1@
        })
        &&& self.player2@ == (PlayerView {
            win: before.player2@.win + if p2 > p1 { 1nat } else { 0nat },
            ..before.player2@
        })
        &&& self.shop_first_player == if p1 > p2 {
            2u8
        } else if p2 > p1 {
            1u8
        } else {
            before.shop_first_player
        }
        &&& self.has_fresh_shop()
        &&& self.grid@ == before.grid@
        &&& self.size_grid == before.size_grid
        &&& self.iteration == before.iteration
    }

    /// A match on a grid of side `GRID_SIZE`, seeded with the starting spawn
    /// probabilities, with fresh players and shop.
    pub fn new() -> (g: Game)
        ensures
            g.wf(),
            g.size_grid == GRID_SIZE,
            g.player1@ == fresh_player(Pos { x: 0, y: 0 }),
            g.player2@ == fresh_player(Pos { x: (GRID_SIZE - 1) as usize, y: (GRID_SIZE - 1) as usize }),
            forall|i: int| 0 <= i < g.grid.values@.len() ==> seedable(#[trigger] g.grid.values@[i], PLAYER_SPAWN_PROBA as int, PLAYER_SPAWN_PROBA as int),
            g.shop_first_player == 1,
            g.has_fresh_shop(),
            g.iteration == 0,
            !g.round_over,
            g.round_result is None,
    {
        let size_grid = GRID_SIZE;
        let player1 = Player::new();
        let player2 = Player::new_p2(size_grid);
        let shop = Shop::new_with_players(&player1, &player2, 1);
        let grid = Grid::seeded(size_grid, player1.spawn_proba, player2.spawn_proba);
        Game {
            player1,
            player2,
            grid,
            size_grid,
            shop,
            iteration: 0,
            round_over: false,
            round_result: None,
            shop_first_player: 1,
        }
    }

    /// Starts a round: a toric grid seeded from both players' spawn
    /// probabilities, a fresh shop, the round stipend added to both balances,
    /// and the iteration counter and result cleared. The shop made here is
    /// made again, with the right player first, when the round ends.
    pub fn new_round(&mut self)
        requires
            old(self).wf(),
            old(self).player1.money + PLAYER_ADD_MONEY <= usize::MAX,
            old(self).player2.money + PLAYER_ADD_MONEY <= usize::MAX,
        ensures
            final(self).wf(),
            final(self).size_grid == old(self).size_grid,
            final(self).grid.toric,
            forall|i: int| 0 <= i < final(self).grid.values@.len() ==> seedable(#[trigger] final(self).grid.values@[i], old(self).player1.spawn_proba as int, old(self).player2.spawn_proba as int),
            final(self).player1@ == (PlayerView { money: (old(self).player1@.money + PLAYER_ADD_MONEY) as nat, ..old(self).player1@ }),
            final(self).player2@ == (PlayerView { money: (old(self).player2@.money + PLAYER_ADD_MONEY) as nat, ..old(self).player2@ }),
            final(self).shop_first_player == old(self).shop_first_player,
            final(self).has_fresh_shop(),
            final(self).iteration == 0,
            !final(self).round_over,
            final(self).round_result is None,
    {
        self.new_grid();
        self.new_shop();
        self.player1.money = self.player1.money + PLAYER_ADD_MONEY;
        self.player2.money = self.player2.money + PLAYER_ADD_MONEY;
        self.iteration = 0;
        self.round_over = false;
        self.round_result = None;
    }

    /// Replaces the shop by a fresh one.
    fn new_shop(&mut self)
        requires
            old(self).wf(),
        ensures
            final(self).wf(),
            final(self).has_fresh_shop(),
            final(self)@ == (GameView { shop: final(self).shop@, ..old(self)@ }),
            final(self).grid == old(self).grid,
    {
        self.shop = Shop::new_with_players(&self.player1, &self.player2, self.shop_first_player);
    }

    /// Replaces the grid by one seeded from both players' spawn probabilities.
    fn new_grid(&mut self)
        requires
            old(self).wf(),
        ensures
            final(self).wf(),
            final(self).grid.toric,
            forall|i: int| 0 <= i < final(self).grid.values@.len() ==> seedable(#[trigger] final(self).grid.values@[i], old(self).player1.spawn_proba as int, old(self).player2.spawn_proba as int),
            final(self)@ == (GameView { grid: final(self).grid@, ..old(self)@ }),
    {
        proof {
            lemma_grid_side_fits(self.grid);
        }
        self.grid = Grid::seeded(self.size_grid, self.player1.spawn_proba, self.player2.spawn_proba);
    }

    /// Runs one tick of the round, unless it is over. The round ends, and is
    /// scored, when the counter reaches `MAX_ITERATIONS` or when the tick left
    /// the grid as it was: the tick is deterministic, so such a grid is a
    /// fixed point.
    pub fn advance_iteration(&mut self)
        requires
            old(self).wf(),
            old(self).player1.win < usize::MAX,
            old(self).player2.win < usize::MAX,
        ensures
            final(self).wf(),
            old(self).round_over ==> final(self)@ == old(self)@,
            !old(self).round_over ==> old(self).grid.steps_to(old(self).player1.rules@, old(self).player2.rules@, final(self).grid),
            !old(self).round_over ==> final(self).iteration == old(self).iteration + 1,
            !old(self).round_over ==> final(self).round_over == (final(self).iteration >= MAX_ITERATIONS || final(self).grid.values@ == old(self).grid.values@),
            !old(self).round_over && final(self).round_over ==> final(self).scored_from(old(self).with_grid_and_iteration(final(self).grid, final(self).iteration)),
            !old(self).round_over && !final(self).round_over ==> final(self).round_result is None,
            !old(self).round_over && !final(self).round_over ==> final(self)@ == (GameView { grid: final(self).grid@, iteration: final(self).iteration as nat, ..old(self)@ }),
    {
        if self.round_over {
            return;
        }
        let next = self.grid.step(&self.player1.rules, &self.player2.rules);
        let stable = same_cells(&next.values, &self.grid.values);
        let over = self.iteration + 1 >= MAX_ITERATIONS || stable;
        self.grid = next;
        self.iteration = self.iteration + 1;
        self.round_over = over;
        if over {
            self.end_round();
        }
    }

    /// `self` with its grid and iteration counter replaced.
    pub open spec fn with_grid_and_iteration(self, grid: Grid, iteration: usize) -> Game {
        Game { grid, iteration, ..self }
    }

    /// Ends the round and scores it on the current grid.
    fn end_round(&mut self)
        requires
            old(self).wf(),
            old(self).player1.win < usize::MAX,
            old(self).player2.win < usize::MAX,
        ensures
            final(self).wf(),
            final(self).scored_from(*old(self)),
            final(self).grid == old(self).grid,
    {
        self.round_over = true;
        let p1_count = self.grid.count(CellState::Player1);
        let p2_count = self.grid.count(CellState::Player2);
        if p1_count > p2_count {
            self.player1.win = self.player1.win + 1;
            self.shop_first_player = 2;
            self.round_result = Some(RoundResult { winner: CellState::Player1, player1_count: p1_count, player2_count: p2_count });
        } else if p2_count > p1_count {
            self.player2.win = self.player2.win + 1;
            self.shop_first_player = 1;
            self.round_result = Some(RoundResult { winner: CellState::Player2, player1_count: p1_count, player2_count: p2_count });
        } else {
            self.round_result = Some(RoundResult { winner: CellState::Neutral, player1_count: p1_count, player2_count: p2_count });
        }
        self.new_shop();
    }
}

/// Whether two sequences of cells are identical.
pub fn same_cells(a: &Vec<CellState>, b: &Vec<CellState>) -> (same: bool)
    ensures
        same == (a@ == b@),
{
    if a.len() != b.len() {
        return false;
    }
    let mut i: usize = 0;
    while i < a.len()
        invariant
            a@.len() == b@.len(),
            i <= a@.len(),
            forall|j: int| 0 <= j < i ==> a@[j] == b@[j],
        decreases a@.len() - i,
    {
        if a[i] != b[i] {
            return false;
        }
        i = i + 1;
    }
    assert(a@ =~= b@);
    true
}

/// The side of a valid grid can be squared in a `usize`.
proof fn lemma_grid_side_fits(g: Grid)
    requires
        g.wf(),
    ensures
        g.width * g.width <= usize::MAX,
{
}

} // verus!
