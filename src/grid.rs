use vstd::arithmetic::div_mod::{lemma_fundamental_div_mod, lemma_fundamental_div_mod_converse};
use vstd::prelude::*;

use crate::constants::SPAWN_SCALE;
use crate::random::random_below;
use crate::rule::{any_matches, first_match, Rule};
use crate::types::CellState;

verus! {

/// A square grid of cell states, stored row by row.
pub struct Grid {
    pub width: usize,
    pub height: usize,
    pub values: Vec<CellState>,
    pub toric: bool,
}

/// The mathematical value of a grid.
pub struct GridView {
    pub width: nat,
    pub height: nat,
    pub values: Seq<CellState>,
    pub toric: bool,
}

impl View for Grid {
    type V = GridView;

    open spec fn view(&self) -> GridView {
        GridView {
            width: self.width as nat,
            height: self.height as nat,
            values: self.values@,
            toric: self.toric,
        }
    }
}

/// The state at column `x` and row `y` of the row-major sequence `s` of width `w`.
pub open spec fn at(s: Seq<CellState>, w: int, x: int, y: int) -> CellState {
    s[y * w + x]
}

/// The number of cells of `s` in state `c`.
pub open spec fn count_of(s: Seq<CellState>, c: CellState) -> nat
    decreases s.len(),
{
    if s.len() == 0 {
        0
    } else {
        count_of(s.drop_last(), c) + if s.last() == c {
            1nat
        } else {
            0nat
        }
    }
}

/// The state a seeded cell takes for a draw out of `0..SPAWN_SCALE` and spawn
/// probabilities `p1`, `p2` in millionths: each player claims the cell with
/// exactly their probability.
pub open spec fn seed_state(draw: int, p1: int, p2: int) -> CellState {
    if draw < p1 {
        CellState::Player1
    } else if draw < p1 + p2 {
        CellState::Player2
    } else {
        CellState::Neutral
    }
}

/// Whether some draw out of `0..SPAWN_SCALE` seeds a cell in state `c`.
pub open spec fn seedable(c: CellState, p1: int, p2: int) -> bool {
    exists|d: int| 0 <= d < SPAWN_SCALE && #[trigger] seed_state(d, p1, p2) == c
}

/// Cell `(x, y)` of a grid of width `w` and height `h` has a row-major index
/// inside the grid.
pub proof fn lemma_index_in_grid(x: int, y: int, w: int, h: int)
    requires
        0 <= x < w,
        0 <= y < h,
    ensures
        0 <= y * w + x < h * w,
        y * w + x < w * h,
        (y + 1) * w == y * w + w,
{
    assert(0 <= y * w + x < h * w) by (nonlinear_arith)
        requires
            0 <= x < w,
            0 <= y < h,
    ;
    assert((y + 1) * w == y * w + w) by (nonlinear_arith);
    assert(h * w == w * h) by (nonlinear_arith);
}

/// Stepping one place back or forth around a ring of `n` places.
pub proof fn lemma_wrap(a: int, n: int)
    requires
        0 <= a < n,
    ensures
        (a - 1) % n == if a == 0 {
            n - 1
        } else {
            a - 1
        },
        (a + 1) % n == if a == n - 1 {
            0
        } else {
            a + 1
        },
{
    if a == 0 {
        lemma_fundamental_div_mod_converse(a - 1, n, -1, n - 1);
    } else {
        lemma_fundamental_div_mod_converse(a - 1, n, 0, a - 1);
    }
    if a == n - 1 {
        lemma_fundamental_div_mod_converse(a + 1, n, 1, 0);
    } else {
        lemma_fundamental_div_mod_converse(a + 1, n, 0, a + 1);
    }
}

impl Grid {
    /// The grid is square and holds one state per cell.
    pub open spec fn wf(self) -> bool {
        &&& self.width == self.height
        &&& self.values@.len() == self.width * self.height
        &&& self.width * self.height <= usize::MAX
    }

    /// The state at column `x` and row `y`.
    pub open spec fn cell(self, x: int, y: int) -> CellState {
        at(self.values@, self.width as int, x, y)
    }

    /// The neighbour above `(x, y)`, wrapping from the first row to the last.
    pub open spec fn top_of(self, x: int, y: int) -> CellState {
        self.cell(x, (y - 1) % (self.height as int))
    }

    /// The neighbour right of `(x, y)`, wrapping from the last column to the first.
    pub open spec fn right_of(self, x: int, y: int) -> CellState {
        self.cell((x + 1) % (self.width as int), y)
    }

    /// The neighbour below `(x, y)`, wrapping from the last row to the first.
    pub open spec fn bottom_of(self, x: int, y: int) -> CellState {
        self.cell(x, (y + 1) % (self.height as int))
    }

    /// The neighbour left of `(x, y)`, wrapping from the first column to the last.
    pub open spec fn left_of(self, x: int, y: int) -> CellState {
        self.cell((x - 1) % (self.width as int), y)
    }

    /// Whether `(x, y)` lies in the first or last row or column.
    pub open spec fn on_border(self, x: int, y: int) -> bool {
        x == 0 || y == 0 || x == self.width - 1 || y == self.height - 1
    }

    /// The state of `(x, y)` one tick later: a bounded grid keeps its border;
    /// otherwise a match among the first player's rules claims the cell for
    /// them, failing that a match among the second player's rules claims it
    /// for them, and failing both the cell keeps its state.
    pub open spec fn next_cell(self, rules_p1: Seq<Rule>, rules_p2: Seq<Rule>, x: int, y: int) -> CellState {
        let top = self.top_of(x, y);
        let right = self.right_of(x, y);
        let bottom = self.bottom_of(x, y);
        let left = self.left_of(x, y);
        if !self.toric && self.on_border(x, y) {
            self.cell(x, y)
        } else if any_matches(rules_p1, top, right, bottom, left) {
            CellState::Player1
        } else if any_matches(rules_p2, top, right, bottom, left) {
            CellState::Player2
        } else {
            self.cell(x, y)
        }
    }

    /// Whether `next` is this grid one tick later under the two rule lists.
    pub open spec fn steps_to(self, rules_p1: Seq<Rule>, rules_p2: Seq<Rule>, next: Grid) -> bool {
        &&& next.wf()
        &&& next.width == self.width
        &&& next.height == self.height
        &&& next.toric == self.toric
        &&& forall|x: int, y: int|
            0 <= x < self.width && 0 <= y < self.height ==> #[trigger] next.cell(x, y)
                == self.next_cell(rules_p1, rules_p2, x, y)
    }

    /// An all-neutral toric grid of side `size`.
    pub fn new(size: usize) -> (g: Grid)
        requires
            size * size <= usize::MAX,
        ensures
            g.wf(),
            g.width == size,
            g.toric,
            forall|i: int| 0 <= i < g.values@.len() ==> g.values@[i] == CellState::Neutral,
    {
        let n = size * size;
        let mut values: Vec<CellState> = Vec::new();
        while values.len() < n
            invariant
                values@.len() <= n,
                forall|i: int| 0 <= i < values@.len() ==> values@[i] == CellState::Neutral,
            decreases n - values@.len(),
        {
            values.push(CellState::Neutral);
        }
        Grid { width: size, height: size, values, toric: true }
    }

    /// A toric grid of side `size` whose cell `i` is seeded from `draws[i]`.
    pub fn from_draws(size: usize, draws: &Vec<usize>, p1: usize, p2: usize) -> (g: Grid)
        requires
            size * size <= usize::MAX,
            draws@.len() == size * size,
            p1 + p2 <= SPAWN_SCALE,
        ensures
            g.wf(),
            g.width == size,
            g.toric,
            forall|i: int|
                0 <= i < g.values@.len() ==> g.values@[i] == seed_state(
                    draws@[i] as int,
                    p1 as int,
                    p2 as int,
                ),
    {
        let mut values: Vec<CellState> = Vec::new();
        let mut i: usize = 0;
        while i < draws.len()
            invariant
                i <= draws@.len(),
                values@.len() == i,
                p1 + p2 <= SPAWN_SCALE,
                forall|j: int|
                    0 <= j < i ==> values@[j] == seed_state(draws@[j] as int, p1 as int, p2 as int),
            decreases draws@.len() - i,
        {
            let d = draws[i];
            let c = if d < p1 {
                CellState::Player1
            } else if d < p1 + p2 {
                CellState::Player2
            } else {
                CellState::Neutral
            };
            values.push(c);
            i = i + 1;
        }
        Grid { width: size, height: size, values, toric: true }
    }

    /// A toric grid of side `size` where each cell independently belongs to
    /// the first player with probability `p1`, to the second with probability
    /// `p2`, and is neutral otherwise (in millionths).
    pub fn seeded(size: usize, p1: usize, p2: usize) -> (g: Grid)
        requires
            size * size <= usize::MAX,
            p1 + p2 <= SPAWN_SCALE,
        ensures
            g.wf(),
            g.width == size,
            g.toric,
            forall|i: int|
                0 <= i < g.values@.len() ==> seedable(#[trigger] g.values@[i], p1 as int, p2 as int),
    {
        let n = size * size;
        let mut draws: Vec<usize> = Vec::new();
        while draws.len() < n
            invariant
                draws@.len() <= n,
                forall|j: int| 0 <= j < draws@.len() ==> draws@[j] < SPAWN_SCALE,
            decreases n - draws@.len(),
        {
            draws.push(random_below(SPAWN_SCALE));
        }
        let g = Grid::from_draws(size, &draws, p1, p2);
        assert forall|i: int| 0 <= i < g.values@.len() implies seedable(
            #[trigger] g.values@[i],
            p1 as int,
            p2 as int,
        ) by {
            assert(seed_state(draws@[i] as int, p1 as int, p2 as int) == g.values@[i]);
        }
        g
    }

    /// The state at column `x` and row `y`.
    pub fn get(&self, x: usize, y: usize) -> (c: CellState)
        requires
            self.wf(),
            x < self.width,
            y < self.height,
        ensures
            c == self.cell(x as int, y as int),
    {
        proof {
            lemma_index_in_grid(x as int, y as int, self.width as int, self.height as int);
        }
        self.values[y * self.width + x]
    }

    /// The number of cells in state `value`.
    pub fn count(&self, value: CellState) -> (n: usize)
        ensures
            n == count_of(self.values@, value),
    {
        let mut n: usize = 0;
        let mut i: usize = 0;
        while i < self.values.len()
            invariant
                i <= self.values@.len(),
                n <= i,
                n == count_of(self.values@.subrange(0, i as int), value),
            decreases self.values@.len() - i,
        {
            assert(self.values@.subrange(0, i + 1).drop_last() =~= self.values@.subrange(
                0,
                i as int,
            ));
            if self.values[i] == value {
                n = n + 1;
            }
            i = i + 1;
        }
        assert(self.values@.subrange(0, i as int) =~= self.values@);
        n
    }

    /// The grid one tick later: every cell is computed from this grid, left
    /// untouched, and the result is a fresh grid.
    pub fn step(&self, rules_p1: &Vec<Rule>, rules_p2: &Vec<Rule>) -> (next: Grid)
        requires
            self.wf(),
        ensures
            self.steps_to(rules_p1@, rules_p2@, next),
    {
        let w = self.width;
        let h = self.height;
        let mut values: Vec<CellState> = Vec::new();
        let mut y: usize = 0;
        while y < h
            invariant
                self.wf(),
                w == self.width,
                h == self.height,
                y <= h,
                values@.len() == y * w,
                forall|xx: int, yy: int|
                    0 <= xx < w && 0 <= yy < y ==> #[trigger] at(values@, w as int, xx, yy)
                        == self.next_cell(rules_p1@, rules_p2@, xx, yy),
            decreases h - y,
        {
            let mut x: usize = 0;
            proof {
                lemma_index_in_grid(0, y as int, w as int, h as int);
            }
            while x < w
                invariant
                    self.wf(),
                    w == self.width,
                    h == self.height,
                    y < h,
                    x <= w,
                    values@.len() == y * w + x,
                    forall|xx: int, yy: int|
                        0 <= xx < w && 0 <= yy < y ==> #[trigger] at(values@, w as int, xx, yy)
                            == self.next_cell(rules_p1@, rules_p2@, xx, yy),
                    forall|xx: int|
                        0 <= xx < x ==> #[trigger] at(values@, w as int, xx, y as int)
                            == self.next_cell(rules_p1@, rules_p2@, xx, y as int),
                decreases w - x,
            {
                let c = self.next_at(rules_p1, rules_p2, x, y);
                let ghost before = values@;
                values.push(c);
                proof {
                    lemma_index_in_grid(x as int, y as int, w as int, h as int);
                    assert forall|xx: int, yy: int|
                        0 <= xx < w && 0 <= yy < y implies #[trigger] at(values@, w as int, xx, yy)
                        == self.next_cell(rules_p1@, rules_p2@, xx, yy) by {
                        lemma_index_in_grid(xx, yy, w as int, y as int);
                        assert(at(before, w as int, xx, yy) == at(values@, w as int, xx, yy));
                    }
                    assert forall|xx: int| 0 <= xx < x + 1 implies #[trigger] at(
                        values@,
                        w as int,
                        xx,
                        y as int,
                    ) == self.next_cell(rules_p1@, rules_p2@, xx, y as int) by {
                        if xx < x {
                            assert(at(before, w as int, xx, y as int) == at(
                                values@,
                                w as int,
                                xx,
                                y as int,
                            ));
                        }
                    }
                }
                x = x + 1;
            }
            proof {
                lemma_index_in_grid(0, y as int, w as int, h as int);
            }
            y = y + 1;
        }
        assert(h * w == w * h) by (nonlinear_arith);
        let next = Grid { width: w, height: h, values, toric: self.toric };
        assert forall|x: int, y: int|
            0 <= x < self.width && 0 <= y < self.height implies #[trigger] next.cell(x, y)
            == self.next_cell(rules_p1@, rules_p2@, x, y) by {
            assert(at(next.values@, w as int, x, y) == self.next_cell(rules_p1@, rules_p2@, x, y));
        }
        next
    }

    /// Advances the grid by one tick, replacing its cells wholesale.
    pub fn next(&mut self, rules_p1: &Vec<Rule>, rules_p2: &Vec<Rule>)
        requires
            old(self).wf(),
        ensures
            old(self).steps_to(rules_p1@, rules_p2@, *final(self)),
    {
        *self = self.step(rules_p1, rules_p2);
    }

    /// The state of cell `(x, y)` one tick later.
    fn next_at(&self, rules_p1: &Vec<Rule>, rules_p2: &Vec<Rule>, x: usize, y: usize) -> (c:
        CellState)
        requires
            self.wf(),
            x < self.width,
            y < self.height,
        ensures
            c == self.next_cell(rules_p1@, rules_p2@, x as int, y as int),
    {
        let w = self.width;
        let h = self.height;
        proof {
            lemma_index_in_grid(x as int, y as int, w as int, h as int);
        }
        let current = self.values[y * w + x];
        if !self.toric && (x == 0 || y == 0 || x == w - 1 || y == h - 1) {
            return current;
        }
        let up = if y == 0 {
            h - 1
        } else {
            y - 1
        };
        let down = if y == h - 1 {
            0
        } else {
            y + 1
        };
        let back = if x == 0 {
            w - 1
        } else {
            x - 1
        };
        let forth = if x == w - 1 {
            0
        } else {
            x + 1
        };
        proof {
            lemma_wrap(x as int, w as int);
            lemma_wrap(y as int, h as int);
            lemma_index_in_grid(x as int, up as int, w as int, h as int);
            lemma_index_in_grid(x as int, down as int, w as int, h as int);
            lemma_index_in_grid(back as int, y as int, w as int, h as int);
            lemma_index_in_grid(forth as int, y as int, w as int, h as int);
        }
        let top = self.values[up * w + x];
        let right = self.values[y * w + forth];
        let bottom = self.values[down * w + x];
        let left = self.values[y * w + back];
        if first_match(rules_p1, top, right, bottom, left) {
            CellState::Player1
        } else if first_match(rules_p2, top, right, bottom, left) {
            CellState::Player2
        } else {
            current
        }
    }
}

/// Every cell is in exactly one of the three states.
pub proof fn lemma_count_partition(s: Seq<CellState>)
    ensures
        count_of(s, CellState::Player1) + count_of(s, CellState::Player2) + count_of(
            s,
            CellState::Neutral,
        ) == s.len(),
    decreases s.len(),
{
    if s.len() > 0 {
        lemma_count_partition(s.drop_last());
    }
}

/// The three per-state counts add up to the number of cells, before and
/// after a tick.
pub proof fn lemma_counts_cover_grid(g: Grid, rules_p1: Seq<Rule>, rules_p2: Seq<Rule>, next: Grid)
    requires
        g.wf(),
        g.steps_to(rules_p1, rules_p2, next),
    ensures
        count_of(g.values@, CellState::Player1) + count_of(g.values@, CellState::Player2)
            + count_of(g.values@, CellState::Neutral) == g.width * g.height,
        count_of(next.values@, CellState::Player1) + count_of(next.values@, CellState::Player2)
            + count_of(next.values@, CellState::Neutral) == next.width * next.height,
{
    lemma_count_partition(g.values@);
    lemma_count_partition(next.values@);
}

/// A tick is deterministic: two results of the same tick on the same grid and
/// rule lists are the same grid.
pub proof fn lemma_step_deterministic(
    g: Grid,
    rules_p1: Seq<Rule>,
    rules_p2: Seq<Rule>,
    a: Grid,
    b: Grid,
)
    requires
        g.wf(),
        g.steps_to(rules_p1, rules_p2, a),
        g.steps_to(rules_p1, rules_p2, b),
    ensures
        a.values@ == b.values@,
        a.width == b.width,
        a.height == b.height,
        a.toric == b.toric,
{
    let w = g.width as int;
    let h = g.height as int;
    assert forall|i: int| 0 <= i < a.values@.len() implies a.values@[i] == b.values@[i] by {
        lemma_fundamental_div_mod(i, w);
        let x = i % w;
        let y = i / w;
        assert(0 <= x < w && 0 <= y < h) by (nonlinear_arith)
            requires
                0 <= i < w * h,
                i == w * y + x,
                x == i % w,
                y == i / w,
                w > 0,
        {
            vstd::arithmetic::div_mod::lemma_mod_pos_bound(i, w);
            vstd::arithmetic::div_mod::lemma_div_pos_is_pos(i, w);
        }
        assert(i == y * w + x) by (nonlinear_arith)
            requires
                i == w * y + x,
        ;
        assert(a.cell(x, y) == b.cell(x, y));
    }
    assert(a.values@ =~= b.values@);
}

/// The first player's rules have priority: a cell that one of them matches
/// becomes the first player's, whatever the second player's rules say.
pub proof fn lemma_first_player_priority(
    g: Grid,
    rules_p1: Seq<Rule>,
    rules_p2: Seq<Rule>,
    next: Grid,
    x: int,
    y: int,
)
    requires
        g.wf(),
        g.steps_to(rules_p1, rules_p2, next),
        0 <= x < g.width,
        0 <= y < g.height,
        g.toric || !g.on_border(x, y),
        any_matches(rules_p1, g.top_of(x, y), g.right_of(x, y), g.bottom_of(x, y), g.left_of(x, y)),
    ensures
        next.cell(x, y) == CellState::Player1,
{
}

/// A cell that no rule of either list matches keeps its state.
pub proof fn lemma_unmatched_cell_kept(
    g: Grid,
    rules_p1: Seq<Rule>,
    rules_p2: Seq<Rule>,
    next: Grid,
    x: int,
    y: int,
)
    requires
        g.wf(),
        g.steps_to(rules_p1, rules_p2, next),
        0 <= x < g.width,
        0 <= y < g.height,
        !any_matches(rules_p1, g.top_of(x, y), g.right_of(x, y), g.bottom_of(x, y), g.left_of(x, y)),
        !any_matches(rules_p2, g.top_of(x, y), g.right_of(x, y), g.bottom_of(x, y), g.left_of(x, y)),
    ensures
        next.cell(x, y) == g.cell(x, y),
{
}

/// The corner cell `(0, 0)` reads its top neighbour from the last row and its
/// left neighbour from the last column.
pub proof fn lemma_origin_wraps(g: Grid)
    requires
        g.wf(),
        g.width > 0,
    ensures
        g.top_of(0, 0) == g.cell(0, g.height - 1),
        g.left_of(0, 0) == g.cell(g.width - 1, 0),
{
    lemma_wrap(0, g.height as int);
    lemma_wrap(0, g.width as int);
}

} // verus!
