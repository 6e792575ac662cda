use vstd::prelude::*;

use crate::constants::{PLAYER_MAX_RULES, PLAYER_MAX_SPAWN_PROBA, PLAYER_SPAWN_PROBA, PLAYER_START_MONEY};
use crate::rule::Rule;
use crate::types::Pos;

verus! {

/// A competitor: the rules it owns, in priority order, and its resources.
pub struct Player {
    pub rules: Vec<Rule>,
    pub max_rules: usize,
    pub spawn: Vec<Pos>,
    /// Probability that a seeded cell is this player's, in millionths.
    pub spawn_proba: usize,
    pub money: usize,
    pub win: usize,
}

/// The mathematical value of a player.
pub struct PlayerView {
    pub rules: Seq<Rule>,
    pub max_rules: nat,
    pub spawn: Seq<Pos>,
    pub spawn_proba: nat,
    pub money: nat,
    pub win: nat,
}

impl View for Player {
    type V = PlayerView;

    open spec fn view(&self) -> PlayerView {
        PlayerView {
            rules: self.rules@,
            max_rules: self.max_rules as nat,
            spawn: self.spawn@,
            spawn_proba: self.spawn_proba as nat,
            money: self.money as nat,
            win: self.win as nat,
        }
    }
}

/// A player who has no rules, the starting money and spawn probability, no
/// wins, and spawns at `at`.
pub open spec fn fresh_player(at: Pos) -> PlayerView {
    PlayerView {
        rules: Seq::empty(),
        max_rules: PLAYER_MAX_RULES as nat,
        spawn: seq![at],
        spawn_proba: PLAYER_SPAWN_PROBA as nat,
        money: PLAYER_START_MONEY as nat,
        win: 0,
    }
}

impl Player {
    /// The spawn probability stays under its ceiling, and the player holds
    /// at most `PLAYER_MAX_RULES` rules.
    pub open spec fn wf(self) -> bool {
        &&& self.spawn_proba <= PLAYER_MAX_SPAWN_PROBA
        &&& self.max_rules == PLAYER_MAX_RULES
        &&& self.rules@.len() <= self.max_rules
    }

    /// A player with no rules, the starting money and spawn probability, no
    /// wins, spawning at the top-left corner.
    pub fn new() -> (p: Player)
        ensures
            p.wf(),
            p@ == fresh_player(Pos { x: 0, y: 0 }),
    {
        let mut spawn: Vec<Pos> = Vec::new();
        spawn.push(Pos { x: 0, y: 0 });
        let p = Player {
            rules: Vec::new(),
            max_rules: PLAYER_MAX_RULES,
            spawn,
            spawn_proba: PLAYER_SPAWN_PROBA,
            money: PLAYER_START_MONEY,
            win: 0,
        };
        assert(p@.rules =~= Seq::empty());
        assert(p@.spawn =~= seq![Pos { x: 0, y: 0 }]);
        p
    }

    /// Like `new`, but spawning at the bottom-right corner of a grid of side
    /// `size_grid`.
    pub fn new_p2(size_grid: usize) -> (p: Player)
        requires
            size_grid > 0,
        ensures
            p.wf(),
            p@ == fresh_player(Pos { x: (size_grid - 1) as usize, y: (size_grid - 1) as usize }),
    {
        let mut spawn: Vec<Pos> = Vec::new();
        spawn.push(Pos { x: size_grid - 1, y: size_grid - 1 });
        let p = Player {
            rules: Vec::new(),
            max_rules: PLAYER_MAX_RULES,
            spawn,
            spawn_proba: PLAYER_SPAWN_PROBA,
            money: PLAYER_START_MONEY,
            win: 0,
        };
        assert(p@.rules =~= Seq::empty());
        assert(p@.spawn =~= seq![Pos { x: (size_grid - 1) as usize, y: (size_grid - 1) as usize }]);
        p
    }
}

} // verus!
