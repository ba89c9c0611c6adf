//! Properties of forward chaining: the round bound, stability of a saturated
//! fact set, and independence from the order of the rules.
use vstd::prelude::*;
use crate::engine::{deduction, EngineModel};
use crate::symbolic::{FactModel, RuleModel, derived, fires, is_fixed_point, saturate, step};

verus! {

/// How many rules of `rules` have a head that `facts` does not hold yet.
pub open spec fn pending(facts: Set<FactModel>, rules: Seq<RuleModel>) -> nat
    decreases rules.len(),
{
    if rules.len() == 0 {
        0
    } else {
        pending(facts, rules.drop_last()) + if facts.contains(rules.last().head) {
            0nat
        } else {
            1nat
        }
    }
}

pub proof fn lemma_pending_bounded(facts: Set<FactModel>, rules: Seq<RuleModel>)
    ensures
        pending(facts, rules) <= rules.len(),
    decreases rules.len(),
{
    if rules.len() > 0 {
        lemma_pending_bounded(facts, rules.drop_last());
    }
}

/// Growing the fact set never raises `pending`, and lowers it when a head
/// that was missing becomes known.
pub proof fn lemma_pending_shrinks(s: Set<FactModel>, t: Set<FactModel>, rules: Seq<RuleModel>, i: int)
    requires
        s.subset_of(t),
    ensures
        pending(t, rules) <= pending(s, rules),
        0 <= i < rules.len() && !s.contains(rules[i].head) && t.contains(rules[i].head)
            ==> pending(t, rules) < pending(s, rules),
    decreases rules.len(),
{
    if rules.len() > 0 {
        let front = rules.drop_last();
        if i == rules.len() - 1 {
            lemma_pending_shrinks(s, t, front, -1);
        } else {
            lemma_pending_shrinks(s, t, front, i);
            if 0 <= i < rules.len() {
                assert(front[i] == rules[i]);
            }
        }
    }
}

/// A round in which some rule fires brings `pending` down.
pub proof fn lemma_step_progress(s: Set<FactModel>, rules: Seq<RuleModel>)
    requires
        !is_fixed_point(s, rules),
    ensures
        pending(step(s, rules), rules) < pending(s, rules),
{
    let r = choose|r: RuleModel| #[trigger] rules.contains(r) && fires(s, r);
    let i = choose|i: int| 0 <= i < rules.len() && rules[i] == r;
    assert(derived(s, rules).contains(r.head));
    lemma_pending_shrinks(s, step(s, rules), rules, i);
}

/// Once no rule fires, further rounds change nothing.
pub proof fn lemma_fixed_point_stays(s: Set<FactModel>, rules: Seq<RuleModel>, n: nat)
    requires
        is_fixed_point(s, rules),
    ensures
        saturate(s, rules, n) == s,
    decreases n,
{
    assert(step(s, rules) =~= s);
    if n > 0 {
        lemma_fixed_point_stays(s, rules, (n - 1) as nat);
    }
}

/// Running `a` rounds and then `b` rounds is running `a + b` rounds.
pub proof fn lemma_saturate_split(s: Set<FactModel>, rules: Seq<RuleModel>, a: nat, b: nat)
    ensures
        saturate(s, rules, a + b) == saturate(saturate(s, rules, a), rules, b),
    decreases a,
{
    if a > 0 {
        lemma_saturate_split(step(s, rules), rules, (a - 1) as nat, b);
        assert((a + b - 1) as nat == (a - 1) as nat + b);
    }
}

/// One more round is one more `step`.
pub proof fn lemma_saturate_next(s: Set<FactModel>, rules: Seq<RuleModel>, n: nat)
    ensures
        saturate(s, rules, n + 1) == step(saturate(s, rules, n), rules),
{
    lemma_saturate_split(s, rules, n, 1);
    assert(saturate(step(saturate(s, rules, n), rules), rules, 0) == step(saturate(s, rules, n), rules));
}

/// After as many rounds as there are pending rules, no rule fires any more.
pub proof fn lemma_saturation_reached(s: Set<FactModel>, rules: Seq<RuleModel>, n: nat)
    requires
        n >= pending(s, rules),
    ensures
        is_fixed_point(saturate(s, rules, n), rules),
    decreases n,
{
    if is_fixed_point(s, rules) {
        lemma_fixed_point_stays(s, rules, n);
    } else {
        lemma_step_progress(s, rules);
        lemma_saturation_reached(step(s, rules), rules, (n - 1) as nat);
    }
}

/// Round bound: whatever the facts, after as many rounds as there are rules
/// no rule fires, so a run ends by the round after that; more rounds change
/// nothing.
pub proof fn lemma_round_bound(s: Set<FactModel>, rules: Seq<RuleModel>, extra: nat)
    ensures
        is_fixed_point(saturate(s, rules, rules.len()), rules),
        saturate(s, rules, rules.len() + extra) == saturate(s, rules, rules.len()),
{
    lemma_pending_bounded(s, rules);
    lemma_saturation_reached(s, rules, rules.len());
    lemma_saturate_split(s, rules, rules.len(), extra);
    lemma_fixed_point_stays(saturate(s, rules, rules.len()), rules, extra);
}

/// Two rule lists holding the same rules, in any order, derive the same
/// facts in every round.
pub proof fn lemma_saturate_same_rules(s: Set<FactModel>, r1: Seq<RuleModel>, r2: Seq<RuleModel>, n: nat)
    requires
        forall|r: RuleModel| r1.contains(r) <==> r2.contains(r),
    ensures
        saturate(s, r1, n) == saturate(s, r2, n),
    decreases n,
{
    assert(derived(s, r1) =~= derived(s, r2));
    if n > 0 {
        lemma_saturate_same_rules(step(s, r1), r1, r2, (n - 1) as nat);
    }
}

/// Two runs of deduction in a row: the second adds nothing and leaves the
/// engine as the first left it.
pub proof fn lemma_deduce_idempotent(
    e0: EngineModel,
    e1: EngineModel,
    n1: int,
    e2: EngineModel,
    n2: int,
)
    requires
        e0.facts.no_duplicates(),
        deduction(e0, e1, n1),
        deduction(e1, e2, n2),
    ensures
        n2 == 0,
        e2 == e1,
{
    lemma_fixed_point_stays(e1.facts.to_set(), e1.rules, e1.rules.len());
    e1.facts.unique_seq_to_set();
    e2.facts.unique_seq_to_set();
    assert(e2.facts =~= e1.facts);
}

/// Deduction never loses a fact: the store only grows.
pub proof fn lemma_deduce_monotone(e0: EngineModel, e1: EngineModel, n: int)
    requires
        deduction(e0, e1, n),
    ensures
        e0.facts.len() <= e1.facts.len(),
        n >= 0,
        e0.facts.to_set().subset_of(e1.facts.to_set()),
{
    assert forall|f: FactModel| e0.facts.to_set().contains(f) implies e1.facts.to_set().contains(f) by {
        let k = choose|k: int| 0 <= k < e0.facts.len() && e0.facts[k] == f;
        assert(e1.facts.subrange(0, e0.facts.len() as int)[k] == f);
        assert(e1.facts[k] == f);
    }
}

/// The order in which rules were added does not matter: engines that start
/// from the same facts with the same rules, in any order, end with the same
/// facts and report the same number of additions.
pub proof fn lemma_deduce_order_independent(
    a0: EngineModel,
    a1: EngineModel,
    na: int,
    b0: EngineModel,
    b1: EngineModel,
    nb: int,
)
    requires
        a0.facts.no_duplicates(),
        b0.facts.no_duplicates(),
        a0.facts.to_set() == b0.facts.to_set(),
        a0.rules.to_multiset() == b0.rules.to_multiset(),
        deduction(a0, a1, na),
        deduction(b0, b1, nb),
    ensures
        a1.facts.to_set() == b1.facts.to_set(),
        na == nb,
{
    a0.rules.to_multiset_ensures();
    b0.rules.to_multiset_ensures();
    assert forall|r: RuleModel| a0.rules.contains(r) <==> b0.rules.contains(r) by {
        assert(a0.rules.contains(r) <==> a0.rules.to_multiset().count(r) > 0);
        assert(b0.rules.contains(r) <==> b0.rules.to_multiset().count(r) > 0);
    }
    lemma_saturate_same_rules(a0.facts.to_set(), a0.rules, b0.rules, a0.rules.len());
    a0.facts.unique_seq_to_set();
    b0.facts.unique_seq_to_set();
    a1.facts.unique_seq_to_set();
    b1.facts.unique_seq_to_set();
}

/// With no rules, deduction adds nothing and leaves the engine as it was.
pub proof fn lemma_deduce_without_rules(e0: EngineModel, e1: EngineModel, n: int)
    requires
        e0.facts.no_duplicates(),
        e0.rules.len() == 0,
        deduction(e0, e1, n),
    ensures
        n == 0,
        e1 == e0,
{
    e0.facts.unique_seq_to_set();
    e1.facts.unique_seq_to_set();
    assert(e1.facts =~= e0.facts);
}

} // verus!
