use vstd::prelude::*;

use crate::random::random_below;
use crate::types::{digit_state, state_digit, CellState};

verus! {

/// An exact-match predicate over the four cardinal neighbours of a cell.
#[derive(PartialEq, Eq, Structural, Clone, Copy, Debug)]
pub struct Rule {
    pub top: CellState,
    pub right: CellState,
    pub bottom: CellState,
    pub left: CellState,
}

/// The number of a rule in base three, its top neighbour as lowest digit.
pub open spec fn rule_code(r: Rule) -> nat {
    state_digit(r.top) + 3 * state_digit(r.right) + 9 * state_digit(r.bottom) + 27
        * state_digit(r.left)
}

/// The rule whose number is `code`, for `code` below 81.
pub open spec fn rule_of_code(code: nat) -> Rule {
    Rule {
        top: digit_state(code % 3),
        right: digit_state((code / 3) % 3),
        bottom: digit_state((code / 9) % 3),
        left: digit_state((code / 27) % 3),
    }
}

/// Whether some rule of `rules` matches the neighbourhood `(top, right, bottom, left)`.
pub open spec fn any_matches(
    rules: Seq<Rule>,
    top: CellState,
    right: CellState,
    bottom: CellState,
    left: CellState,
) -> bool {
    exists|k: int| 0 <= k < rules.len() && #[trigger] rules[k].matches(top, right, bottom, left)
}

/// Distinct rules have distinct numbers, each below 81.
pub proof fn lemma_rule_code_injective(a: Rule, b: Rule)
    ensures
        rule_code(a) < 81,
        rule_code(a) == rule_code(b) ==> a == b,
{
}

impl Rule {
    /// Whether the rule matches the neighbourhood exactly.
    pub open spec fn matches(
        self,
        top: CellState,
        right: CellState,
        bottom: CellState,
        left: CellState,
    ) -> bool {
        self.top == top && self.right == right && self.bottom == bottom && self.left == left
    }

    /// Whether every neighbour the rule expects is neutral.
    pub open spec fn is_all_neutral(self) -> bool {
        self.matches(CellState::Neutral, CellState::Neutral, CellState::Neutral, CellState::Neutral)
    }

    /// A random rule: four independent uniform draws over the three states.
    /// Where `allow_neutral` is false and the draws give the all-neutral
    /// rule, a rule is drawn uniformly among the 80 others instead, which is
    /// the distribution of drawing again until the rule is not all-neutral.
    pub fn new(allow_neutral: bool) -> (r: Rule)
        ensures
            allow_neutral || !r.is_all_neutral(),
    {
        let top = random_below(3);
        let right = random_below(3);
        let bottom = random_below(3);
        let left = random_below(3);
        let r = Rule::from_digits(top, right, bottom, left);
        if !allow_neutral && r.all_neutral() {
            Rule::from_code(1 + random_below(80))
        } else {
            r
        }
    }

    /// The rule whose neighbours have the digits `top`, `right`, `bottom`
    /// and `left`.
    pub fn from_digits(top: usize, right: usize, bottom: usize, left: usize) -> (r: Rule)
        requires
            top < 3,
            right < 3,
            bottom < 3,
            left < 3,
        ensures
            state_digit(r.top) == top,
            state_digit(r.right) == right,
            state_digit(r.bottom) == bottom,
            state_digit(r.left) == left,
    {
        Rule {
            top: CellState::from_index(top),
            right: CellState::from_index(right),
            bottom: CellState::from_index(bottom),
            left: CellState::from_index(left),
        }
    }

    /// The rule whose number is `code`.
    pub fn from_code(code: usize) -> (r: Rule)
        requires
            code < 81,
        ensures
            rule_code(r) == code,
            r == rule_of_code(code as nat),
    {
        Rule {
            top: CellState::from_index(code % 3),
            right: CellState::from_index((code / 3) % 3),
            bottom: CellState::from_index((code / 9) % 3),
            left: CellState::from_index((code / 27) % 3),
        }
    }

    /// Whether the rule matches the neighbourhood exactly.
    pub fn next(&self, top: CellState, right: CellState, bottom: CellState, left: CellState) -> (m:
        bool)
        ensures
            m == self.matches(top, right, bottom, left),
    {
        self.top == top && self.right == right && self.bottom == bottom && self.left == left
    }

    /// Whether the rule is the one whose neighbours are all neutral.
    pub fn all_neutral(&self) -> (b: bool)
        ensures
            b == self.is_all_neutral(),
    {
        self.next(CellState::Neutral, CellState::Neutral, CellState::Neutral, CellState::Neutral)
    }
}

/// Whether some rule of `rules` matches the neighbourhood; the scan stops at
/// the first match.
pub fn first_match(
    rules: &Vec<Rule>,
    top: CellState,
    right: CellState,
    bottom: CellState,
    left: CellState,
) -> (m: bool)
    ensures
        m == any_matches(rules@, top, right, bottom, left),
{
    let mut k: usize = 0;
    while k < rules.len()
        invariant
            k <= rules@.len(),
            forall|j: int| 0 <= j < k ==> !(#[trigger] rules@[j].matches(top, right, bottom, left)),
        decreases rules@.len() - k,
    {
        if rules[k].next(top, right, bottom, left) {
            return true;
        }
        k = k + 1;
    }
    false
}

/// Whether `r` occurs in `rules`.
pub fn contains_rule(rules: &Vec<Rule>, r: Rule) -> (b: bool)
    ensures
        b == rules@.contains(r),
{
    let mut k: usize = 0;
    while k < rules.len()
        invariant
            k <= rules@.len(),
            forall|j: int| 0 <= j < k ==> rules@[j] != r,
        decreases rules@.len() - k,
    {
        if rules[k] == r {
            return true;
        }
        k = k + 1;
    }
    false
}

} // verus!
