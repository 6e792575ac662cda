use nesw::{
    CellState, Player, Pos, Rule, RulePicker, Shop, ShopError, PLAYER_MAX_RULES, PLAYER_MAX_SPAWN_PROBA,
    PLAYER_SPAWN_PROBA, PLAYER_START_MONEY, RULE_PICKER_NB_RULES, SHOP_ADD_SPAWN_PROBA, SHOP_NB_RULES,
    SHOP_PRICE_DELETE, SHOP_PRICE_RULE, SHOP_PRICE_SPAWN,
};

fn pool() -> Vec<Rule> {
    (10..14).map(Rule::from_code).collect()
}

fn rich_player(money: usize) -> Player {
    let mut p = Player::new();
    p.money = money;
    p
}

#[test]
fn new_players() {
    let p = Player::new();
    assert!(p.rules.is_empty());
    assert_eq!(p.max_rules, PLAYER_MAX_RULES);
    assert_eq!(p.money, PLAYER_START_MONEY);
    assert_eq!(p.spawn_proba, PLAYER_SPAWN_PROBA);
    assert_eq!(p.win, 0);
    assert_eq!(p.spawn, vec![Pos { x: 0, y: 0 }]);
    let q = Player::new_p2(64);
    assert_eq!(q.spawn, vec![Pos { x: 63, y: 63 }]);
    assert!(q.rules.is_empty());
}

#[test]
fn buy_rule_without_money_changes_nothing() {
    let mut shop = Shop::from_pool(pool(), 1);
    let mut p = rich_player(0);
    p.rules.push(Rule::from_code(1));
    assert_eq!(shop.buy_rule(&mut p, 0), Err(ShopError::InsufficientFunds));
    assert_eq!(p.money, 0);
    assert_eq!(p.rules, vec![Rule::from_code(1)]);
    assert_eq!(shop.bought, vec![false; 4]);
}

#[test]
fn buy_rule_deducts_price_and_appends_one_rule() {
    let mut shop = Shop::from_pool(pool(), 1);
    let mut p = rich_player(5);
    p.rules.push(Rule::from_code(1));
    assert_eq!(shop.buy_rule(&mut p, 2), Ok(()));
    assert_eq!(p.money, 5 - SHOP_PRICE_RULE);
    assert_eq!(p.rules, vec![Rule::from_code(1), Rule::from_code(12)]);
    assert_eq!(shop.bought, vec![false, false, true, false]);
    assert_eq!(shop.rules, pool());
}

#[test]
fn bought_slot_cannot_be_bought_again() {
    let mut shop = Shop::from_pool(pool(), 1);
    let mut p1 = rich_player(5);
    let mut p2 = rich_player(5);
    assert_eq!(shop.buy_rule(&mut p1, 0), Ok(()));
    assert_eq!(shop.buy_rule(&mut p2, 0), Err(ShopError::AlreadyPurchased));
    assert_eq!(p2.money, 5);
    assert!(p2.rules.is_empty());
}

#[test]
fn buy_rule_invalid_index() {
    let mut shop = Shop::from_pool(pool(), 1);
    let mut p = rich_player(5);
    assert_eq!(shop.buy_rule(&mut p, 4), Err(ShopError::InvalidIndex));
    assert_eq!(p.money, 5);
}

#[test]
fn buy_rule_at_capacity() {
    let mut shop = Shop::from_pool(pool(), 1);
    let mut p = rich_player(5);
    for c in 0..PLAYER_MAX_RULES {
        p.rules.push(Rule::from_code(20 + c));
    }
    assert_eq!(shop.buy_rule(&mut p, 0), Err(ShopError::CapacityExceeded));
    assert_eq!(p.rules.len(), PLAYER_MAX_RULES);
    assert_eq!(p.money, 5);
}

#[test]
fn buy_spawn_raises_probability() {
    let shop = Shop::from_pool(pool(), 1);
    let mut p = rich_player(3);
    assert_eq!(shop.buy_spawn(&mut p), Ok(()));
    assert_eq!(p.spawn_proba, PLAYER_SPAWN_PROBA + SHOP_ADD_SPAWN_PROBA);
    assert_eq!(p.money, 3 - SHOP_PRICE_SPAWN);
}

#[test]
fn buy_spawn_without_money() {
    let shop = Shop::from_pool(pool(), 1);
    let mut p = rich_player(0);
    assert_eq!(shop.buy_spawn(&mut p), Err(ShopError::InsufficientFunds));
    assert_eq!(p.spawn_proba, PLAYER_SPAWN_PROBA);
}

#[test]
fn buy_spawn_at_ceiling() {
    let shop = Shop::from_pool(pool(), 1);
    let mut p = rich_player(3);
    p.spawn_proba = PLAYER_MAX_SPAWN_PROBA;
    assert_eq!(shop.buy_spawn(&mut p), Err(ShopError::CapacityExceeded));
    assert_eq!(p.money, 3);
    p.spawn_proba = PLAYER_MAX_SPAWN_PROBA - SHOP_ADD_SPAWN_PROBA;
    assert_eq!(shop.buy_spawn(&mut p), Ok(()));
    assert_eq!(p.spawn_proba, PLAYER_MAX_SPAWN_PROBA);
}

#[test]
fn delete_opponent_rule_refunds_actor() {
    let shop = Shop::from_pool(pool(), 1);
    let mut actor = rich_player(2);
    let mut target = rich_player(7);
    target.rules = vec![Rule::from_code(1), Rule::from_code(2), Rule::from_code(3)];
    actor.rules = vec![Rule::from_code(4)];
    assert_eq!(shop.delete_rule(&mut actor, &mut target, 1), Ok(()));
    assert_eq!(actor.money, 2 + SHOP_PRICE_DELETE);
    assert_eq!(actor.rules, vec![Rule::from_code(4)]);
    assert_eq!(target.rules, vec![Rule::from_code(1), Rule::from_code(3)]);
    assert_eq!(target.money, 7);
}

#[test]
fn delete_own_rule_refunds_player() {
    let shop = Shop::from_pool(pool(), 1);
    let mut p = rich_player(1);
    p.rules = vec![Rule::from_code(1), Rule::from_code(2)];
    assert_eq!(shop.delete_own_rule(&mut p, 0), Ok(()));
    assert_eq!(p.money, 1 + SHOP_PRICE_DELETE);
    assert_eq!(p.rules, vec![Rule::from_code(2)]);
}

#[test]
fn delete_rule_failures() {
    let shop = Shop::from_pool(pool(), 1);
    let mut actor = rich_player(0);
    let mut target = rich_player(0);
    target.rules = vec![Rule::from_code(1)];
    assert_eq!(shop.delete_rule(&mut actor, &mut target, 0), Err(ShopError::InsufficientFunds));
    assert_eq!(target.rules.len(), 1);
    actor.money = 4;
    assert_eq!(shop.delete_rule(&mut actor, &mut target, 1), Err(ShopError::InvalidIndex));
    assert_eq!(actor.money, 4);
    assert_eq!(shop.delete_own_rule(&mut actor, 0), Err(ShopError::InvalidIndex));
}

#[test]
fn shopping_turns_alternate_until_both_are_done() {
    let mut shop = Shop::from_pool(pool(), 2);
    assert_eq!(shop.shopping_player, 2);
    assert!(!shop.is_over());
    shop.finish_turn();
    assert_eq!(shop.shopping_player, 1);
    assert!(shop.player2_done && !shop.player1_done);
    assert!(!shop.is_over());
    shop.finish_turn();
    assert!(shop.is_over());
}

#[test]
fn new_shop_pool() {
    let shop = Shop::new();
    assert_eq!(shop.rules.len(), SHOP_NB_RULES);
    assert_eq!(shop.bought, vec![false; SHOP_NB_RULES]);
    assert_eq!(shop.shopping_player, 1);
}

#[test]
fn shop_pool_avoids_owned_rules() {
    let mut p1 = Player::new();
    let mut p2 = Player::new();
    p1.rules = (0..16).map(Rule::from_code).collect();
    p2.rules = (16..32).map(Rule::from_code).collect();
    for _ in 0..10 {
        let shop = Shop::new_with_players(&p1, &p2, 2);
        assert_eq!(shop.rules.len(), SHOP_NB_RULES);
        assert_eq!(shop.shopping_player, 2);
        for (i, r) in shop.rules.iter().enumerate() {
            assert!(!p1.rules.contains(r) && !p2.rules.contains(r));
            assert!(!shop.rules[i + 1..].contains(r));
        }
    }
}

#[test]
fn rule_picker_pool_and_pick() {
    let mut p1 = Player::new();
    let p2 = Player::new();
    p1.rules = vec![Rule::from_code(5)];
    let mut picker = RulePicker::new_with_players(&p1, &p2);
    assert_eq!(picker.rules.len(), RULE_PICKER_NB_RULES);
    assert_eq!(picker.rules_available, vec![true; RULE_PICKER_NB_RULES]);
    assert!(!picker.rules.contains(&Rule::from_code(5)));
    let chooser = picker.player1_choosing;
    let picked = picker.rules[3];
    picker.add_rule(&mut p1, 3);
    assert_eq!(p1.rules, vec![Rule::from_code(5), picked]);
    assert!(!picker.rules_available[3]);
    assert_eq!(picker.rules_available.iter().filter(|a| **a).count(), RULE_PICKER_NB_RULES - 1);
    assert_eq!(picker.player1_choosing, chooser);
    let _ = CellState::Neutral;
}

#[test]
fn rule_picker_turns() {
    let p = Player::new();
    let mut picker = RulePicker::new_with_players(&p, &p);
    picker.player1_choosing = true;
    picker.pass_turn(1, 0);
    assert!(!picker.player1_choosing);
    picker.pass_turn(1, 1);
    assert!(picker.player1_choosing);
    picker.pass_turn(1, 4);
    assert!(picker.player1_choosing);
    picker.pass_turn(4, 3);
    assert!(!picker.player1_choosing);
}

#[test]
fn rule_picker_pool_is_full_when_players_hold_many_rules() {
    let mut p1 = Player::new();
    let mut p2 = Player::new();
    p1.rules = (0..16).map(Rule::from_code).collect();
    p2.rules = (40..56).map(Rule::from_code).collect();
    let picker = RulePicker::new_with_players(&p1, &p2);
    assert_eq!(picker.rules.len(), RULE_PICKER_NB_RULES);
    for r in picker.rules.iter() {
        assert!(!p1.rules.contains(r) && !p2.rules.contains(r));
    }
}
