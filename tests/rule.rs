use nesw::pool::{draw_pool, draw_pool_from, offerable_rules};
use nesw::rule::{contains_rule, first_match};
use nesw::{CellState, Rule};

use CellState::{Neutral, Player1, Player2};

#[test]
fn test_rule_next_true() {
    let rule = Rule {
        top: CellState::Player1,
        right: CellState::Player2,
        bottom: CellState::Neutral,
        left: CellState::Neutral,
    };
    assert!(rule.next(CellState::Player1, CellState::Player2, CellState::Neutral, CellState::Neutral));
}

#[test]
fn test_rule_next_false() {
    let rule = Rule {
        top: CellState::Player1,
        right: CellState::Player2,
        bottom: CellState::Neutral,
        left: CellState::Neutral,
    };
    assert!(!rule.next(CellState::Player2, CellState::Player2, CellState::Neutral, CellState::Neutral));
}

#[test]
fn rule_matches_only_on_every_field() {
    let rule = Rule { top: Player1, right: Neutral, bottom: Player2, left: Neutral };
    assert!(rule.next(Player1, Neutral, Player2, Neutral));
    assert!(!rule.next(Player1, Neutral, Player2, Player1));
    assert!(!rule.next(Neutral, Neutral, Player2, Neutral));
    assert!(!rule.next(Player1, Player2, Player2, Neutral));
    assert!(!rule.next(Player1, Neutral, Neutral, Neutral));
}

#[test]
fn cell_state_from_index() {
    assert_eq!(CellState::from_index(0), Neutral);
    assert_eq!(CellState::from_index(1), Player1);
    assert_eq!(CellState::from_index(2), Player2);
}

#[test]
fn rule_from_code_digits() {
    assert_eq!(Rule::from_code(0), Rule { top: Neutral, right: Neutral, bottom: Neutral, left: Neutral });
    assert_eq!(Rule::from_code(1), Rule { top: Player1, right: Neutral, bottom: Neutral, left: Neutral });
    assert_eq!(Rule::from_code(3), Rule { top: Neutral, right: Player1, bottom: Neutral, left: Neutral });
    assert_eq!(Rule::from_code(9 * 2 + 27), Rule { top: Neutral, right: Neutral, bottom: Player2, left: Player1 });
    assert_eq!(Rule::from_code(80), Rule { top: Player2, right: Player2, bottom: Player2, left: Player2 });
    let mut all: Vec<Rule> = Vec::new();
    for c in 0..81 {
        let r = Rule::from_code(c);
        assert!(!all.contains(&r));
        all.push(r);
    }
}

#[test]
fn random_rule_is_well_formed() {
    for _ in 0..50 {
        let r = Rule::new(true);
        assert!(r.next(r.top, r.right, r.bottom, r.left));
    }
}

#[test]
fn all_neutral_rule() {
    assert!(Rule::from_code(0).all_neutral());
    assert!(!Rule::from_code(1).all_neutral());
}

#[test]
fn first_match_scans_the_list() {
    let rules = vec![
        Rule { top: Player1, right: Neutral, bottom: Neutral, left: Neutral },
        Rule { top: Neutral, right: Player2, bottom: Neutral, left: Neutral },
    ];
    assert!(first_match(&rules, Neutral, Player2, Neutral, Neutral));
    assert!(first_match(&rules, Player1, Neutral, Neutral, Neutral));
    assert!(!first_match(&rules, Player2, Neutral, Neutral, Neutral));
    assert!(!first_match(&Vec::new(), Neutral, Neutral, Neutral, Neutral));
}

#[test]
fn contains_rule_finds_equal_rules() {
    let rules = vec![Rule::from_code(5), Rule::from_code(7)];
    assert!(contains_rule(&rules, Rule::from_code(7)));
    assert!(!contains_rule(&rules, Rule::from_code(6)));
}

#[test]
fn offerable_rules_excludes_owned_and_neutral() {
    let none: Vec<Rule> = Vec::new();
    assert_eq!(offerable_rules(&none, &none, true).len(), 81);
    let without_neutral = offerable_rules(&none, &none, false);
    assert_eq!(without_neutral.len(), 80);
    assert!(!without_neutral.contains(&Rule::from_code(0)));
    let owned1 = vec![Rule::from_code(3), Rule::from_code(4)];
    let owned2 = vec![Rule::from_code(4), Rule::from_code(10)];
    let c = offerable_rules(&owned1, &owned2, true);
    assert_eq!(c.len(), 78);
    assert!(!c.contains(&Rule::from_code(3)));
    assert!(!c.contains(&Rule::from_code(10)));
    assert!(c.contains(&Rule::from_code(11)));
}

#[test]
fn draw_pool_is_distinct_and_disjoint() {
    let owned1 = vec![Rule::from_code(1), Rule::from_code(2)];
    let owned2 = vec![Rule::from_code(3)];
    for _ in 0..20 {
        let pool = draw_pool(8, &owned1, &owned2, false);
        assert_eq!(pool.len(), 8);
        for (i, r) in pool.iter().enumerate() {
            assert!(!owned1.contains(r) && !owned2.contains(r));
            assert!(!r.all_neutral());
            assert!(!pool[i + 1..].contains(r));
        }
    }
}

#[test]
fn draw_pool_stops_when_rules_run_out() {
    let owned1: Vec<Rule> = (0..40).map(Rule::from_code).collect();
    let owned2: Vec<Rule> = (40..78).map(Rule::from_code).collect();
    let pool = draw_pool(8, &owned1, &owned2, true);
    assert_eq!(pool.len(), 3);
    for c in 78..81 {
        assert!(pool.contains(&Rule::from_code(c)));
    }
    assert_eq!(draw_pool(0, &owned1, &owned2, true).len(), 0);
}

#[test]
fn cell_state_labels() {
    assert_eq!(Neutral.label(), "Neutral");
    assert_eq!(Player1.label(), "Player1");
    assert_eq!(Player2.label(), "Player2");
}

#[test]
fn rule_from_digits() {
    assert_eq!(Rule::from_digits(1, 0, 2, 1), Rule { top: Player1, right: Neutral, bottom: Player2, left: Player1 });
    assert_eq!(Rule::from_digits(0, 0, 0, 0), Rule::from_code(0));
    assert_eq!(Rule::from_digits(2, 2, 2, 2), Rule::from_code(80));
}

#[test]
fn random_rule_without_neutral_policy() {
    for _ in 0..500 {
        assert!(!Rule::new(false).all_neutral());
    }
}

#[test]
fn draw_pool_from_follows_the_draws() {
    let none: Vec<Rule> = Vec::new();
    let pool = draw_pool_from(3, &vec![5, 0, 100], &none, &none, true);
    assert_eq!(pool, vec![Rule::from_code(5), Rule::from_code(0), Rule::from_code(23)]);
    let short = draw_pool_from(3, &vec![1], &none, &none, true);
    assert_eq!(short, vec![Rule::from_code(1)]);
    let owned = vec![Rule::from_code(1)];
    let skip = draw_pool_from(2, &vec![0, 0], &owned, &none, false);
    assert_eq!(skip, vec![Rule::from_code(2), Rule::from_code(3)]);
}
