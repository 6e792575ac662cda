use vstd::prelude::*;

use crate::constants::NB_DISTINCT_RULES;
use crate::random::random_below;
use crate::rule::{contains_rule, lemma_rule_code_injective, rule_code, rule_of_code, Rule};
use crate::types::CellState;

verus! {

/// Whether a generated pool may offer `r`: neither player owns it, and it is
/// the all-neutral rule only where that rule is allowed.
pub open spec fn offerable(r: Rule, owned_p1: Seq<Rule>, owned_p2: Seq<Rule>, allow_neutral: bool) -> bool {
    &&& !owned_p1.contains(r)
    &&& !owned_p2.contains(r)
    &&& (allow_neutral || !r.is_all_neutral())
}

/// The offerable rules among those numbered below `n`, in the order of their numbers.
pub open spec fn offerable_upto(n: nat, owned_p1: Seq<Rule>, owned_p2: Seq<Rule>, allow_neutral: bool) -> Seq<Rule>
    decreases n,
{
    if n == 0 {
        Seq::empty()
    } else {
        let before = offerable_upto((n - 1) as nat, owned_p1, owned_p2, allow_neutral);
        let r = rule_of_code((n - 1) as nat);
        if offerable(r, owned_p1, owned_p2, allow_neutral) {
            before.push(r)
        } else {
            before
        }
    }
}

/// One where the all-neutral rule is refused, none otherwise.
pub open spec fn neutral_slack(allow_neutral: bool) -> nat {
    if allow_neutral {
        0
    } else {
        1
    }
}

/// The rules picked from `cands` by `draws`: each draw, taken modulo the
/// number of candidates left, removes one candidate and appends it, until
/// `size` are picked or the candidates or the draws run out.
pub open spec fn picks(cands: Seq<Rule>, draws: Seq<usize>, size: nat) -> Seq<Rule>
    decreases size,
{
    if size == 0 || cands.len() == 0 || draws.len() == 0 {
        Seq::empty()
    } else {
        let k = (draws[0] as int) % (cands.len() as int);
        seq![cands[k]] + picks(cands.remove(k), draws.drop_first(), (size - 1) as nat)
    }
}

/// Whether `pool` is a valid offer: no rule twice, each one offerable, at most
/// `size` of them, and fewer only when every offerable rule is in it.
pub open spec fn valid_pool(
    pool: Seq<Rule>,
    size: nat,
    owned_p1: Seq<Rule>,
    owned_p2: Seq<Rule>,
    allow_neutral: bool,
) -> bool {
    &&& pool.no_duplicates()
    &&& forall|i: int| 0 <= i < pool.len() ==> offerable(#[trigger] pool[i], owned_p1, owned_p2, allow_neutral)
    &&& pool.len() <= size
    &&& (pool.len() == size || forall|r: Rule| offerable(r, owned_p1, owned_p2, allow_neutral) ==> #[trigger] pool.contains(r))
}

/// Every offerable rule, once each, in the order of their numbers. All but
/// at most one rule per owned rule, and the all-neutral rule where it is
/// refused, are offerable.
pub fn offerable_rules(owned_p1: &Vec<Rule>, owned_p2: &Vec<Rule>, allow_neutral: bool) -> (c: Vec<Rule>)
    ensures
        c@ == offerable_upto(NB_DISTINCT_RULES as nat, owned_p1@, owned_p2@, allow_neutral),
        c@.no_duplicates(),
        forall|r: Rule| #[trigger] c@.contains(r) <==> offerable(r, owned_p1@, owned_p2@, allow_neutral),
        c@.len() + owned_p1@.len() + owned_p2@.len() + neutral_slack(allow_neutral) >= NB_DISTINCT_RULES,
{
    let mut cands: Vec<Rule> = Vec::new();
    let mut code: usize = 0;
    let ghost mut skipped: Set<Rule> = Set::empty();
    while code < NB_DISTINCT_RULES
        invariant
            code <= NB_DISTINCT_RULES,
            cands@ == offerable_upto(code as nat, owned_p1@, owned_p2@, allow_neutral),
            cands@.no_duplicates(),
            forall|i: int| 0 <= i < cands@.len() ==> rule_code(#[trigger] cands@[i]) < code,
            forall|i: int| 0 <= i < cands@.len() ==> offerable(#[trigger] cands@[i], owned_p1@, owned_p2@, allow_neutral),
            forall|r: Rule| offerable(r, owned_p1@, owned_p2@, allow_neutral) && rule_code(r) < code ==> #[trigger] cands@.contains(r),
            skipped.finite(),
            skipped.len() + cands@.len() == code,
            forall|r: Rule| #[trigger] skipped.contains(r) ==> rule_code(r) < code && !offerable(r, owned_p1@, owned_p2@, allow_neutral),
        decreases NB_DISTINCT_RULES - code,
    {
        let r = Rule::from_code(code);
        let keep = !contains_rule(owned_p1, r) && !contains_rule(owned_p2, r) && (allow_neutral || !r.all_neutral());
        if keep {
            let ghost before = cands@;
            cands.push(r);
            proof {
                assert forall|i: int, j: int| 0 <= i < j < cands@.len() implies cands@[i] != cands@[j] by {
                    if j < before.len() {
                        assert(before[i] != before[j]);
                    } else {
                        assert(rule_code(before[i]) < code);
                    }
                }
                assert forall|q: Rule| offerable(q, owned_p1@, owned_p2@, allow_neutral) && rule_code(q) < code + 1 implies #[trigger] cands@.contains(q) by {
                    if rule_code(q) == code {
                        lemma_rule_code_injective(q, r);
                        assert(cands@[cands@.len() - 1] == q);
                    } else {
                        assert(before.contains(q));
                        let k = choose|k: int| 0 <= k < before.len() && before[k] == q;
                        assert(cands@[k] == q);
                    }
                }
            }
        } else {
            proof {
                assert(!skipped.contains(r));
                skipped = skipped.insert(r);
                assert forall|q: Rule| offerable(q, owned_p1@, owned_p2@, allow_neutral) && rule_code(q) < code + 1 implies #[trigger] cands@.contains(q) by {
                    if rule_code(q) == code {
                        lemma_rule_code_injective(q, r);
                    }
                }
            }
        }
        code = code + 1;
    }
    proof {
        assert forall|r: Rule| #[trigger] cands@.contains(r) implies offerable(r, owned_p1@, owned_p2@, allow_neutral) by {
            let k = choose|k: int| 0 <= k < cands@.len() && cands@[k] == r;
        }
        assert forall|r: Rule| offerable(r, owned_p1@, owned_p2@, allow_neutral) implies #[trigger] cands@.contains(r) by {
            lemma_rule_code_injective(r, r);
        }
        lemma_skipped_are_few(skipped, owned_p1@, owned_p2@, allow_neutral);
    }
    cands
}

/// Rules that are not offerable number at most one per owned rule, plus the
/// all-neutral rule where it is refused.
proof fn lemma_skipped_are_few(skipped: Set<Rule>, owned_p1: Seq<Rule>, owned_p2: Seq<Rule>, allow_neutral: bool)
    requires
        skipped.finite(),
        forall|r: Rule| #[trigger] skipped.contains(r) ==> !offerable(r, owned_p1, owned_p2, allow_neutral),
    ensures
        skipped.len() <= owned_p1.len() + owned_p2.len() + neutral_slack(allow_neutral),
{
    let neutral = Rule {
        top: CellState::Neutral,
        right: CellState::Neutral,
        bottom: CellState::Neutral,
        left: CellState::Neutral,
    };
    let extra: Set<Rule> = if allow_neutral {
        Set::empty()
    } else {
        Set::empty().insert(neutral)
    };
    let owned = owned_p1.to_set().union(owned_p2.to_set());
    let all = owned.union(extra);
    assert(skipped.subset_of(all));
    owned_p1.lemma_cardinality_of_set();
    owned_p2.lemma_cardinality_of_set();
    vstd::set_lib::lemma_len_union(owned_p1.to_set(), owned_p2.to_set());
    vstd::set_lib::lemma_len_union(owned, extra);
    vstd::set_lib::lemma_len_subset(skipped, all);
}

/// The rules that `draws` pick from `cands`, as `picks` describes.
pub fn pick_from(cands: Vec<Rule>, draws: &Vec<usize>, size: usize) -> (pool: Vec<Rule>)
    requires
        cands@.no_duplicates(),
    ensures
        pool@ == picks(cands@, draws@, size as nat),
        pool@.no_duplicates(),
        forall|i: int| 0 <= i < pool@.len() ==> cands@.contains(#[trigger] pool@[i]),
        pool@.len() <= size,
        pool@.len() <= draws@.len(),
        pool@.len() <= cands@.len(),
        pool@.len() < size && pool@.len() < draws@.len() ==> pool@.len() == cands@.len(),
        pool@.len() == cands@.len() ==> forall|r: Rule| cands@.contains(r) ==> #[trigger] pool@.contains(r),
{
    let ghost orig = cands@;
    let mut rest = cands;
    let mut pool: Vec<Rule> = Vec::new();
    let mut i: usize = 0;
    assert(draws@.subrange(0, draws@.len() as int) =~= draws@);
    while i < size && i < draws.len() && rest.len() > 0
        invariant
            pool@.len() == i,
            i <= size,
            i <= draws@.len(),
            pool@.len() + rest@.len() == orig.len(),
            pool@ + picks(rest@, draws@.subrange(i as int, draws@.len() as int), (size - i) as nat)
                == picks(orig, draws@, size as nat),
            pool@.no_duplicates(),
            rest@.no_duplicates(),
            forall|a: int, b: int| 0 <= a < pool@.len() && 0 <= b < rest@.len() ==> pool@[a] != rest@[b],
            forall|r: Rule| #[trigger] orig.contains(r) <==> pool@.contains(r) || rest@.contains(r),
        decreases rest@.len(),
    {
        let k = draws[i] % rest.len();
        let ghost old_rest = rest@;
        let ghost old_pool = pool@;
        let ghost rem = draws@.subrange(i as int, draws@.len() as int);
        let r = rest.remove(k);
        pool.push(r);
        proof {
            assert(rest@ =~= old_rest.remove(k as int));
            assert(rem.drop_first() =~= draws@.subrange(i + 1, draws@.len() as int));
            assert(rem[0] == draws@[i as int]);
            let tail = picks(rest@, rem.drop_first(), (size - i - 1) as nat);
            assert(picks(old_rest, rem, (size - i) as nat) == seq![r] + tail);
            assert(old_pool + (seq![r] + tail) =~= pool@ + tail);
            assert forall|a: int, b: int| 0 <= a < b < pool@.len() implies pool@[a] != pool@[b] by {
                if b < old_pool.len() {
                    assert(old_pool[a] != old_pool[b]);
                } else {
                    assert(old_pool[a] != old_rest[k as int]);
                }
            }
            assert forall|a: int, b: int| 0 <= a < b < rest@.len() implies rest@[a] != rest@[b] by {
                let oa = if a < k { a } else { a + 1 };
                let ob = if b < k { b } else { b + 1 };
                assert(rest@[a] == old_rest[oa]);
                assert(rest@[b] == old_rest[ob]);
            }
            assert forall|a: int, b: int| 0 <= a < pool@.len() && 0 <= b < rest@.len() implies pool@[a] != rest@[b] by {
                let ob = if b < k { b } else { b + 1 };
                assert(rest@[b] == old_rest[ob]);
                if a < old_pool.len() {
                    assert(old_pool[a] != old_rest[ob]);
                } else {
                    assert(old_rest[k as int] != old_rest[ob]);
                }
            }
            assert forall|q: Rule| #[trigger] orig.contains(q) <==> pool@.contains(q) || rest@.contains(q) by {
                if old_pool.contains(q) {
                    let a = choose|a: int| 0 <= a < old_pool.len() && old_pool[a] == q;
                    assert(pool@[a] == q);
                }
                if old_rest.contains(q) {
                    let b = choose|b: int| 0 <= b < old_rest.len() && old_rest[b] == q;
                    if b == k {
                        assert(pool@[pool@.len() - 1] == q);
                    } else if b < k {
                        assert(rest@[b] == q);
                    } else {
                        assert(rest@[b - 1] == q);
                    }
                }
                if pool@.contains(q) {
                    let a = choose|a: int| 0 <= a < pool@.len() && pool@[a] == q;
                    if a < old_pool.len() {
                        assert(old_pool[a] == q);
                    } else {
                        assert(old_rest[k as int] == q);
                    }
                }
                if rest@.contains(q) {
                    let b = choose|b: int| 0 <= b < rest@.len() && rest@[b] == q;
                    let ob = if b < k { b } else { b + 1 };
                    assert(old_rest[ob] == q);
                }
            }
        }
        i = i + 1;
    }
    proof {
        let rem = draws@.subrange(i as int, draws@.len() as int);
        assert(picks(rest@, rem, (size - i) as nat) == Seq::<Rule>::empty());
        assert(pool@ + Seq::<Rule>::empty() =~= pool@);
        assert forall|a: int| 0 <= a < pool@.len() implies orig.contains(#[trigger] pool@[a]) by {
            assert(pool@.contains(pool@[a]));
        }
        if pool@.len() == orig.len() {
            assert(rest@.len() == 0);
        }
    }
    pool
}

/// The pool that `draws` pick, as `picks` describes, out of the offerable
/// rules in the order of their numbers. Given at least `size` draws it is a
/// valid offer.
pub fn draw_pool_from(
    size: usize,
    draws: &Vec<usize>,
    owned_p1: &Vec<Rule>,
    owned_p2: &Vec<Rule>,
    allow_neutral: bool,
) -> (pool: Vec<Rule>)
    ensures
        pool@ == picks(offerable_upto(NB_DISTINCT_RULES as nat, owned_p1@, owned_p2@, allow_neutral), draws@, size as nat),
        draws@.len() >= size ==> valid_pool(pool@, size as nat, owned_p1@, owned_p2@, allow_neutral),
{
    let cands = offerable_rules(owned_p1, owned_p2, allow_neutral);
    let pool = pick_from(cands, draws, size);
    proof {
        if draws@.len() >= size {
            lemma_pick_is_valid(cands@, pool@, size as nat, owned_p1@, owned_p2@, allow_neutral);
        }
    }
    pool
}

/// A pool picked from all the offerable rules, with every one of them in it
/// where it is short of `size`, is a valid offer.
proof fn lemma_pick_is_valid(
    cands: Seq<Rule>,
    pool: Seq<Rule>,
    size: nat,
    owned_p1: Seq<Rule>,
    owned_p2: Seq<Rule>,
    allow_neutral: bool,
)
    requires
        forall|r: Rule| #[trigger] cands.contains(r) <==> offerable(r, owned_p1, owned_p2, allow_neutral),
        pool.no_duplicates(),
        forall|i: int| 0 <= i < pool.len() ==> cands.contains(#[trigger] pool[i]),
        pool.len() <= size,
        pool.len() < size ==> pool.len() == cands.len(),
        pool.len() == cands.len() ==> forall|r: Rule| cands.contains(r) ==> #[trigger] pool.contains(r),
    ensures
        valid_pool(pool, size, owned_p1, owned_p2, allow_neutral),
{
    assert forall|i: int| 0 <= i < pool.len() implies offerable(#[trigger] pool[i], owned_p1, owned_p2, allow_neutral) by {
        assert(cands.contains(pool[i]));
    }
}

/// A pool of up to `size` distinct offerable rules, drawn uniformly without
/// replacement; fewer only when no other offerable rule is left.
pub fn draw_pool(size: usize, owned_p1: &Vec<Rule>, owned_p2: &Vec<Rule>, allow_neutral: bool) -> (pool: Vec<Rule>)
    ensures
        valid_pool(pool@, size as nat, owned_p1@, owned_p2@, allow_neutral),
        pool@.len() == size || pool@.len() + owned_p1@.len() + owned_p2@.len() + neutral_slack(allow_neutral)
            >= NB_DISTINCT_RULES,
{
    let cands = offerable_rules(owned_p1, owned_p2, allow_neutral);
    let mut draws: Vec<usize> = Vec::new();
    while draws.len() < size && draws.len() < cands.len()
        invariant
            draws@.len() <= size,
            draws@.len() <= cands@.len(),
        decreases size - draws@.len(),
    {
        draws.push(random_below(cands.len() - draws.len()));
    }
    let ghost c = cands@;
    let pool = pick_from(cands, &draws, size);
    proof {
        lemma_pick_is_valid(c, pool@, size as nat, owned_p1@, owned_p2@, allow_neutral);
    }
    pool
}

} // verus!
