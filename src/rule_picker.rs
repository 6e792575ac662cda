use vstd::prelude::*;

use crate::constants::{ALLOW_NEUTRAL_RULE, PLAYER_START_RULES, RULE_PICKER_NB_RULES};
use crate::player::{Player, PlayerView};
use crate::pool::{draw_pool, valid_pool};
use crate::random::random_below;
use crate::rule::Rule;

verus! {

/// The selection before the first round: players take turns picking rules
/// from a shared pool.
pub struct RulePicker {
    pub player1_choosing: bool,
    pub rules: Vec<Rule>,
    /// Whether each rule of the pool can still be picked.
    pub rules_available: Vec<bool>,
}

impl RulePicker {
    /// One availability flag per rule of the pool.
    pub open spec fn wf(self) -> bool {
        self.rules_available@.len() == self.rules@.len()
    }

    /// A pool of freshly drawn rules that neither player owns, all available;
    /// which player picks first is drawn at random.
    pub fn new_with_players(player1: &Player, player2: &Player) -> (p: RulePicker)
        requires
            player1.wf(),
            player2.wf(),
        ensures
            p.rules@.len() == RULE_PICKER_NB_RULES,
            p.wf(),
            valid_pool(p.rules@, RULE_PICKER_NB_RULES as nat, player1.rules@, player2.rules@, ALLOW_NEUTRAL_RULE),
            forall|i: int| 0 <= i < p.rules_available@.len() ==> p.rules_available@[i],
    {
        let rules = draw_pool(RULE_PICKER_NB_RULES, &player1.rules, &player2.rules, ALLOW_NEUTRAL_RULE);
        let mut rules_available: Vec<bool> = Vec::new();
        while rules_available.len() < rules.len()
            invariant
                rules_available@.len() <= rules@.len(),
                forall|i: int| 0 <= i < rules_available@.len() ==> rules_available@[i],
            decreases rules@.len() - rules_available@.len(),
        {
            rules_available.push(true);
        }
        let player1_choosing = random_below(2) == 0;
        RulePicker { player1_choosing, rules, rules_available }
    }

    /// Gives `player` a copy of rule `index` of the pool and makes it
    /// unavailable.
    pub fn add_rule(&mut self, player: &mut Player, index: usize)
        requires
            old(self).wf(),
            index < old(self).rules@.len(),
            old(player).wf(),
            old(player).rules@.len() < old(player).max_rules,
        ensures
            final(self).wf(),
            final(player).wf(),
            final(self).rules@ == old(self).rules@,
            final(self).rules_available@ == old(self).rules_available@.update(index as int, false),
            final(self).player1_choosing == old(self).player1_choosing,
            final(player)@ == (PlayerView {
                rules: old(player)@.rules.push(old(self).rules@[index as int]),
                ..old(player)@
            }),
    {
        self.rules_available.set(index, false);
        let rule = self.rules[index];
        player.rules.push(rule);
    }

    /// Hands the choice on after a pick, given how many rules each player
    /// holds: a player who holds `PLAYER_START_RULES` rules picks no more,
    /// and otherwise the players alternate.
    pub fn pass_turn(&mut self, player1_rules: usize, player2_rules: usize)
        ensures
            final(self).rules@ == old(self).rules@,
            final(self).rules_available@ == old(self).rules_available@,
            final(self).player1_choosing == if player1_rules >= PLAYER_START_RULES {
                false
            } else if player2_rules >= PLAYER_START_RULES {
                true
            } else {
                !old(self).player1_choosing
            },
    {
        if player1_rules >= PLAYER_START_RULES {
            self.player1_choosing = false;
        } else if player2_rules >= PLAYER_START_RULES {
            self.player1_choosing = true;
        } else {
            self.player1_choosing = !self.player1_choosing;
        }
    }
}

} // verus!
