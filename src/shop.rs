use vstd::prelude::*;

use crate::constants::{
    ALLOW_NEUTRAL_RULE, PLAYER_MAX_SPAWN_PROBA, SHOP_ADD_SPAWN_PROBA, SHOP_NB_RULES,
    SHOP_PRICE_DELETE, SHOP_PRICE_RULE, SHOP_PRICE_SPAWN,
};
use crate::player::{Player, PlayerView};
use crate::pool::{draw_pool, valid_pool};
use crate::rule::Rule;

verus! {

/// Why an economy operation was refused; a refused operation changes nothing.
#[derive(PartialEq, Eq, Structural, Clone, Copy, Debug)]
pub enum ShopError {
    InsufficientFunds,
    CapacityExceeded,
    InvalidIndex,
    AlreadyPurchased,
}

/// The economy of one shopping phase: a shared pool of rules on offer, which
/// slots were bought, and whose turn it is.
pub struct Shop {
    pub rules: Vec<Rule>,
    pub bought: Vec<bool>,
    /// The player shopping now: 1 or 2.
    pub shopping_player: u8,
    pub player1_done: bool,
    pub player2_done: bool,
}

/// The mathematical value of a shop.
pub struct ShopView {
    pub rules: Seq<Rule>,
    pub bought: Seq<bool>,
    pub shopping_player: u8,
    pub player1_done: bool,
    pub player2_done: bool,
}

impl View for Shop {
    type V = ShopView;

    open spec fn view(&self) -> ShopView {
        ShopView {
            rules: self.rules@,
            bought: self.bought@,
            shopping_player: self.shopping_player,
            player1_done: self.player1_done,
            player2_done: self.player2_done,
        }
    }
}

/// The outcome owed for an error: `Ok` where there is none.
pub open spec fn outcome(e: Option<ShopError>) -> Result<(), ShopError> {
    match e {
        Some(err) => Err(err),
        None => Ok(()),
    }
}

/// Why buying slot `index` fails, checked in this order: money, capacity,
/// index, slot already bought.
pub open spec fn buy_rule_error(shop: ShopView, player: PlayerView, index: int) -> Option<ShopError> {
    if player.money < SHOP_PRICE_RULE {
        Some(ShopError::InsufficientFunds)
    } else if player.rules.len() >= player.max_rules {
        Some(ShopError::CapacityExceeded)
    } else if index >= shop.rules.len() {
        Some(ShopError::InvalidIndex)
    } else if shop.bought[index] {
        Some(ShopError::AlreadyPurchased)
    } else {
        None
    }
}

/// Why a spawn upgrade fails: money first, then the ceiling, which is reached
/// when one more increment would pass it.
pub open spec fn buy_spawn_error(player: PlayerView) -> Option<ShopError> {
    if player.money < SHOP_PRICE_SPAWN {
        Some(ShopError::InsufficientFunds)
    } else if player.spawn_proba + SHOP_ADD_SPAWN_PROBA > PLAYER_MAX_SPAWN_PROBA {
        Some(ShopError::CapacityExceeded)
    } else {
        None
    }
}

/// Why deleting rule `index` of `target` on behalf of `actor` fails: the
/// actor's money first, then the index into the target's rules.
pub open spec fn delete_rule_error(actor: PlayerView, target: PlayerView, index: int) -> Option<ShopError> {
    if actor.money < SHOP_PRICE_DELETE {
        Some(ShopError::InsufficientFunds)
    } else if index >= target.rules.len() {
        Some(ShopError::InvalidIndex)
    } else {
        None
    }
}

impl Shop {
    /// One bought flag per slot, and the shopping player is 1 or 2.
    pub open spec fn wf(self) -> bool {
        &&& self.bought@.len() == self.rules@.len()
        &&& (self.shopping_player == 1 || self.shopping_player == 2)
    }

    /// Whether nothing was bought and nobody has finished shopping, with
    /// `first` to shop first.
    pub open spec fn is_fresh(self, first: u8) -> bool {
        &&& self.wf()
        &&& forall|i: int| 0 <= i < self.bought@.len() ==> !self.bought@[i]
        &&& self.shopping_player == first
        &&& !self.player1_done
        &&& !self.player2_done
    }

    /// A shop offering `rules`, with `first` to shop first.
    pub fn from_pool(rules: Vec<Rule>, first: u8) -> (s: Shop)
        requires
            first == 1 || first == 2,
        ensures
            s.is_fresh(first),
            s.rules@ == rules@,
    {
        let mut bought: Vec<bool> = Vec::new();
        while bought.len() < rules.len()
            invariant
                bought@.len() <= rules@.len(),
                forall|i: int| 0 <= i < bought@.len() ==> !bought@[i],
            decreases rules@.len() - bought@.len(),
        {
            bought.push(false);
        }
        Shop { rules, bought, shopping_player: first, player1_done: false, player2_done: false }
    }

    /// A shop of freshly drawn rules, the first player to shop first.
    pub fn new() -> (s: Shop)
        ensures
            s.is_fresh(1),
            valid_pool(s.rules@, SHOP_NB_RULES as nat, Seq::empty(), Seq::empty(), ALLOW_NEUTRAL_RULE),
            s.rules@.len() == SHOP_NB_RULES,
    {
        let none: Vec<Rule> = Vec::new();
        assert(none@ =~= Seq::<Rule>::empty());
        let pool = draw_pool(SHOP_NB_RULES, &none, &none, ALLOW_NEUTRAL_RULE);
        Shop::from_pool(pool, 1)
    }

    /// A shop of freshly drawn rules that neither player owns, with `first`
    /// to shop first.
    pub fn new_with_players(player1: &Player, player2: &Player, first: u8) -> (s: Shop)
        requires
            first == 1 || first == 2,
            player1.wf(),
            player2.wf(),
        ensures
            s.is_fresh(first),
            valid_pool(s.rules@, SHOP_NB_RULES as nat, player1.rules@, player2.rules@, ALLOW_NEUTRAL_RULE),
            s.rules@.len() == SHOP_NB_RULES,
    {
        let pool = draw_pool(SHOP_NB_RULES, &player1.rules, &player2.rules, ALLOW_NEUTRAL_RULE);
        Shop::from_pool(pool, first)
    }

    /// Sells slot `index` to `player`: appends a copy of its rule to the
    /// player's rules, takes the price, and marks the slot bought.
    pub fn buy_rule(&mut self, player: &mut Player, index: usize) -> (res: Result<(), ShopError>)
        requires
            old(self).wf(),
            old(player).wf(),
        ensures
            final(self).wf(),
            final(player).wf(),
            res == outcome(buy_rule_error(old(self)@, old(player)@, index as int)),
            res is Err ==> final(self)@ == old(self)@ && final(player)@ == old(player)@,
            res is Ok ==> final(player)@ == (PlayerView {
                rules: old(player)@.rules.push(old(self)@.rules[index as int]),
                money: (old(player)@.money - SHOP_PRICE_RULE) as nat,
                ..old(player)@
            }) && final(self)@ == (ShopView { bought: old(self)@.bought.update(index as int, true), ..old(self)@ }),
    {
        if player.money < SHOP_PRICE_RULE {
            return Err(ShopError::InsufficientFunds);
        }
        if player.rules.len() >= player.max_rules {
            return Err(ShopError::CapacityExceeded);
        }
        if index >= self.rules.len() {
            return Err(ShopError::InvalidIndex);
        }
        if self.bought[index] {
            return Err(ShopError::AlreadyPurchased);
        }
        let rule = self.rules[index];
        player.rules.push(rule);
        player.money = player.money - SHOP_PRICE_RULE;
        self.bought.set(index, true);
        Ok(())
    }

    /// Sells `player` one spawn probability increment.
    pub fn buy_spawn(&self, player: &mut Player) -> (res: Result<(), ShopError>)
        requires
            old(player).wf(),
        ensures
            final(player).wf(),
            res == outcome(buy_spawn_error(old(player)@)),
            res is Err ==> final(player)@ == old(player)@,
            res is Ok ==> final(player)@ == (PlayerView {
                spawn_proba: (old(player)@.spawn_proba + SHOP_ADD_SPAWN_PROBA) as nat,
                money: (old(player)@.money - SHOP_PRICE_SPAWN) as nat,
                ..old(player)@
            }),
    {
        if player.money < SHOP_PRICE_SPAWN {
            return Err(ShopError::InsufficientFunds);
        }
        if player.spawn_proba > PLAYER_MAX_SPAWN_PROBA - SHOP_ADD_SPAWN_PROBA {
            return Err(ShopError::CapacityExceeded);
        }
        player.spawn_proba = player.spawn_proba + SHOP_ADD_SPAWN_PROBA;
        player.money = player.money - SHOP_PRICE_SPAWN;
        Ok(())
    }

    /// Deletes rule `index` of the opponent `target` on behalf of `actor`, who
    /// must be able to pay the deletion price and receives it.
    pub fn delete_rule(&self, actor: &mut Player, target: &mut Player, index: usize) -> (res: Result<(), ShopError>)
        requires
            old(actor).wf(),
            old(target).wf(),
            old(actor).money + SHOP_PRICE_DELETE <= usize::MAX,
        ensures
            final(actor).wf(),
            final(target).wf(),
            res == outcome(delete_rule_error(old(actor)@, old(target)@, index as int)),
            res is Err ==> final(actor)@ == old(actor)@ && final(target)@ == old(target)@,
            res is Ok ==> final(actor)@ == (PlayerView { money: (old(actor)@.money + SHOP_PRICE_DELETE) as nat, ..old(actor)@ })
                && final(target)@ == (PlayerView { rules: old(target)@.rules.remove(index as int), ..old(target)@ }),
    {
        if actor.money < SHOP_PRICE_DELETE {
            return Err(ShopError::InsufficientFunds);
        }
        if index >= target.rules.len() {
            return Err(ShopError::InvalidIndex);
        }
        target.rules.remove(index);
        actor.money = actor.money + SHOP_PRICE_DELETE;
        Ok(())
    }

    /// Deletes rule `index` of `player` on their own behalf, on the same terms
    /// as `delete_rule`.
    pub fn delete_own_rule(&self, player: &mut Player, index: usize) -> (res: Result<(), ShopError>)
        requires
            old(player).wf(),
            old(player).money + SHOP_PRICE_DELETE <= usize::MAX,
        ensures
            final(player).wf(),
            res == outcome(delete_rule_error(old(player)@, old(player)@, index as int)),
            res is Err ==> final(player)@ == old(player)@,
            res is Ok ==> final(player)@ == (PlayerView {
                rules: old(player)@.rules.remove(index as int),
                money: (old(player)@.money + SHOP_PRICE_DELETE) as nat,
                ..old(player)@
            }),
    {
        if player.money < SHOP_PRICE_DELETE {
            return Err(ShopError::InsufficientFunds);
        }
        if index >= player.rules.len() {
            return Err(ShopError::InvalidIndex);
        }
        player.rules.remove(index);
        player.money = player.money + SHOP_PRICE_DELETE;
        Ok(())
    }

    /// Ends the turn of the shopping player; the other player shops next
    /// unless they have already finished.
    pub fn finish_turn(&mut self)
        requires
            old(self).wf(),
        ensures
            final(self).wf(),
            final(self).rules@ == old(self).rules@,
            final(self).bought@ == old(self).bought@,
            old(self).shopping_player == 1 ==> final(self).player1_done && final(self).player2_done
                == old(self).player2_done && final(self).shopping_player == if old(self).player2_done {
                1u8
            } else {
                2u8
            },
            old(self).shopping_player == 2 ==> final(self).player2_done && final(self).player1_done
                == old(self).player1_done && final(self).shopping_player == if old(self).player1_done {
                2u8
            } else {
                1u8
            },
    {
        if self.shopping_player == 1 {
            self.player1_done = true;
            if !self.player2_done {
                self.shopping_player = 2;
            }
        } else {
            self.player2_done = true;
            if !self.player1_done {
                self.shopping_player = 1;
            }
        }
    }

    /// Whether both players have finished shopping.
    pub fn is_over(&self) -> (b: bool)
        ensures
            b == (self.player1_done && self.player2_done),
    {
        self.player1_done && self.player2_done
    }
}

} // verus!
