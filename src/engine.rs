//! The inference engine: a fact store and a rule list, run to saturation by
//! naive forward chaining.
use vstd::prelude::*;
use crate::laws::{
    lemma_fixed_point_stays, lemma_pending_bounded, lemma_round_bound, lemma_saturate_next,
    lemma_saturate_split, lemma_step_progress, pending,
};
use crate::store::{facts_view, inserted, lemma_inserted, FactStore};
use crate::symbolic::{
    body_holds, condition_holds, conditions_view, derived, fact_meets, fires, is_fixed_point,
    op_holds, saturate, step, Condition, Fact, FactModel, Operator, Rule, RuleModel,
};
use crate::text::str_contains;

verus! {

/// The mathematical value of a [`SymbolicEngine`].
pub struct EngineModel {
    pub facts: Seq<FactModel>,
    pub rules: Seq<RuleModel>,
}

pub open spec fn rules_view(v: Seq<Rule>) -> Seq<RuleModel> {
    v.map_values(|r: Rule| r@)
}

/// What a run of forward chaining does to an engine: the rules stay, the
/// facts held before stay in place, the fact set becomes the saturation of
/// the old one, where no rule fires, and `count` facts were added.
pub open spec fn deduction(before: EngineModel, after: EngineModel, count: int) -> bool {
    &&& after.rules == before.rules
    &&& after.facts.no_duplicates()
    &&& before.facts.len() <= after.facts.len()
    &&& after.facts.subrange(0, before.facts.len() as int) == before.facts
    &&& after.facts.to_set() == saturate(before.facts.to_set(), before.rules, before.rules.len())
    &&& is_fixed_point(after.facts.to_set(), before.rules)
    &&& count == after.facts.len() - before.facts.len()
}

/// Working memory and rule base of one reasoning session.
pub struct SymbolicEngine {
    facts: FactStore,
    rules: Vec<Rule>,
}

impl View for SymbolicEngine {
    type V = EngineModel;

    closed spec fn view(&self) -> EngineModel {
        EngineModel { facts: self.facts@, rules: rules_view(self.rules@) }
    }
}

impl SymbolicEngine {
    /// No fact is held twice.
    pub open spec fn wf(&self) -> bool {
        self@.facts.no_duplicates()
    }

    pub fn new() -> (r: SymbolicEngine)
        ensures
            r@.facts == Seq::<FactModel>::empty(),
            r@.rules == Seq::<RuleModel>::empty(),
            r.wf(),
    {
        let r = SymbolicEngine { facts: FactStore::new(), rules: Vec::new() };
        assert(r@.rules =~= Seq::<RuleModel>::empty());
        r
    }

    /// Inserts `fact` into the store unless it is already held.
    pub fn add_fact(&mut self, fact: Fact)
        requires
            old(self).wf(),
        ensures
            final(self).wf(),
            final(self)@.facts == inserted(old(self)@.facts, fact@),
            final(self)@.rules == old(self)@.rules,
    {
        self.facts.insert(fact);
    }

    /// Appends `rule` to the rule list.
    pub fn add_rule(&mut self, rule: Rule)
        ensures
            final(self)@.facts == old(self)@.facts,
            final(self)@.rules == old(self)@.rules.push(rule@),
    {
        let ghost r = rule@;
        self.rules.push(rule);
        assert(self@.rules =~= old(self)@.rules.push(r));
    }

    /// Runs forward chaining until no rule fires; returns how many facts
    /// were added.
    pub fn deduce(&mut self) -> (r: usize)
        requires
            old(self).wf(),
        ensures
            final(self).wf(),
            deduction(old(self)@, final(self)@, r as int),
    {
        let ghost s0 = self@.facts;
        let ghost rules = self@.rules;
        let ghost set0 = s0.to_set();
        let ghost mut rounds: nat = 0;
        let start = self.facts.len();
        proof {
            assert(s0.subrange(0, s0.len() as int) =~= s0);
        }
        loop
            invariant
                self.wf(),
                self@.rules == rules,
                start == s0.len(),
                s0.len() <= self@.facts.len(),
                self@.facts.subrange(0, s0.len() as int) == s0,
                self@.facts.to_set() == saturate(set0, rules, rounds),
                rounds + pending(self@.facts.to_set(), rules) <= pending(set0, rules),
            ensures
                is_fixed_point(self@.facts.to_set(), rules),
            decreases pending(self@.facts.to_set(), rules),
        {
            let ghost cur = self@.facts.to_set();
            let mut candidates: Vec<Fact> = Vec::new();
            let mut i: usize = 0;
            while i < self.rules.len()
                invariant
                    self@.facts.to_set() == cur,
                    self@.rules == rules,
                    i <= rules.len(),
                    forall|f: FactModel| #[trigger] facts_view(candidates@).contains(f) <==> exists|j: int|
                        0 <= j < i && fires(cur, rules[j]) && rules[j].head == f,
                decreases rules.len() - i,
            {
                let rule = &self.rules[i];
                assert(rule@ == rules[i as int]);
                let ghost prev = facts_view(candidates@);
                let ghost h = rules[i as int].head;
                let fired = self.check_conditions(rule.conditions.as_slice()) && !self.facts.contains(
                    &rule.head,
                );
                assert(fired == fires(cur, rules[i as int]));
                if fired {
                    let head = rule.head.clone();
                    candidates.push(head);
                    assert(facts_view(candidates@) =~= prev.push(h));
                } else {
                    assert(facts_view(candidates@) == prev);
                }
                proof {
                    let now = facts_view(candidates@);
                    assert forall|f: FactModel| #[trigger] now.contains(f) <==> exists|j: int|
                        0 <= j < i + 1 && fires(cur, rules[j]) && rules[j].head == f by {
                        if now.contains(f) {
                            if prev.contains(f) {
                                let j = choose|j: int| 0 <= j < i && fires(cur, rules[j]) && rules[j].head == f;
                                assert(0 <= j < i + 1 && fires(cur, rules[j]) && rules[j].head == f);
                            } else {
                                let k = choose|k: int| 0 <= k < now.len() && now[k] == f;
                                if k < prev.len() {
                                    assert(prev[k] == f);
                                }
                                assert(fires(cur, rules[i as int]) && rules[i as int].head == f);
                            }
                        }
                        if exists|j: int| 0 <= j < i + 1 && fires(cur, rules[j]) && rules[j].head == f {
                            let j = choose|j: int| 0 <= j < i + 1 && fires(cur, rules[j]) && rules[j].head == f;
                            if j < i {
                                assert(prev.contains(f));
                                let k = choose|k: int| 0 <= k < prev.len() && prev[k] == f;
                                assert(now[k] == f);
                            } else {
                                assert(now[prev.len() as int] == f);
                            }
                        }
                    }
                }
                i += 1;
            }
            proof {
                assert forall|f: FactModel| #[trigger] facts_view(candidates@).contains(f) <==> derived(cur, rules).contains(f) by {
                    if derived(cur, rules).contains(f) {
                        let r = choose|r: RuleModel| #[trigger] rules.contains(r) && fires(cur, r) && r.head == f;
                        let j = choose|j: int| 0 <= j < rules.len() && rules[j] == r;
                        assert(fires(cur, rules[j]) && rules[j].head == f);
                    }
                    if facts_view(candidates@).contains(f) {
                        let j = choose|j: int| 0 <= j < rules.len() && fires(cur, rules[j]) && rules[j].head == f;
                        assert(rules.contains(rules[j]));
                    }
                }
            }
            if candidates.len() == 0 {
                proof {
                    assert forall|r: RuleModel| #[trigger] rules.contains(r) implies !fires(cur, r) by {
                        if fires(cur, r) {
                            assert(derived(cur, rules).contains(r.head));
                            assert(facts_view(candidates@).contains(r.head));
                        }
                    }
                }
                break;
            }
            proof {
                assert(facts_view(candidates@).contains(facts_view(candidates@)[0]));
                assert(!is_fixed_point(cur, rules));
                lemma_step_progress(cur, rules);
                lemma_saturate_next(set0, rules, rounds);
            }
            let mut k: usize = 0;
            while k < candidates.len()
                invariant
                    self.wf(),
                    self@.rules == rules,
                    k <= candidates@.len(),
                    s0.len() <= self@.facts.len(),
                    self@.facts.subrange(0, s0.len() as int) == s0,
                    self@.facts.to_set() == cur.union(facts_view(candidates@).subrange(0, k as int).to_set()),
                decreases candidates@.len() - k,
            {
                let ghost before = self@.facts;
                let f = candidates[k].clone();
                let ghost fv = f@;
                self.facts.insert(f);
                proof {
                    lemma_inserted(before, fv, s0.len() as int);
                    let done = facts_view(candidates@).subrange(0, k as int);
                    assert(facts_view(candidates@).subrange(0, k + 1 as int) =~= done.push(fv));
                    assert(done.push(fv).to_set() =~= done.to_set().insert(fv)) by {
                        lemma_inserted(done, fv, 0);
                        if done.contains(fv) {
                            assert(done.to_set().insert(fv) =~= done.to_set());
                        }
                    }
                }
                k += 1;
            }
            proof {
                assert(facts_view(candidates@).subrange(0, k as int) =~= facts_view(candidates@));
                assert(facts_view(candidates@).to_set() =~= derived(cur, rules));
                assert(self@.facts.to_set() =~= step(cur, rules));
                rounds = rounds + 1;
            }
        }
        proof {
            lemma_pending_bounded(set0, rules);
            lemma_round_bound(set0, rules, 0);
            lemma_fixed_point_stays(saturate(set0, rules, rounds), rules, (rules.len() - rounds) as nat);
            lemma_saturate_split(set0, rules, rounds, (rules.len() - rounds) as nat);
        }
        self.facts.len() - start
    }

    /// Every condition is satisfied by some fact of the store.
    fn check_conditions(&self, conditions: &[Condition]) -> (r: bool)
        ensures
            r == body_holds(self@.facts.to_set(), conditions_view(conditions@)),
    {
        let ghost facts = self@.facts.to_set();
        let ghost conds = conditions_view(conditions@);
        let mut i: usize = 0;
        while i < conditions.len()
            invariant
                i <= conditions@.len(),
                facts == self@.facts.to_set(),
                conds == conditions_view(conditions@),
                forall|k: int| 0 <= k < i ==> condition_holds(facts, #[trigger] conds[k]),
            decreases conditions@.len() - i,
        {
            let cond = &conditions[i];
            assert(cond@ == conds[i as int]);
            let mut found = false;
            let mut j: usize = 0;
            while j < self.facts.len()
                invariant
                    j <= self@.facts.len(),
                    facts == self@.facts.to_set(),
                    cond@ == conds[i as int],
                    found ==> condition_holds(facts, cond@),
                    !found ==> forall|k: int| 0 <= k < j ==> !fact_meets(#[trigger] self@.facts[k], cond@),
                decreases self@.facts.len() - j,
            {
                let f = self.facts.get(j);
                if f.attribute == cond.attribute && self.evaluate_op(&f.value, &cond.operator, &cond.value) {
                    assert(self@.facts.contains(f@));
                    assert(facts.contains(f@));
                    found = true;
                }
                j += 1;
            }
            if !found {
                proof {
                    assert forall|f: FactModel| #[trigger] facts.contains(f) implies !fact_meets(f, cond@) by {
                        let k = choose|k: int| 0 <= k < self@.facts.len() && self@.facts[k] == f;
                    }
                }
                return false;
            }
            i += 1;
        }
        true
    }

    /// Compares a fact's value with a condition's target.
    fn evaluate_op(&self, fact_val: &String, op: &Operator, target_val: &String) -> (r: bool)
        ensures
            r == op_holds(*op, fact_val@, target_val@),
    {
        match op {
            Operator::Equals => *fact_val == *target_val,
            Operator::Contains => str_contains(fact_val.as_str(), target_val.as_str()),
        }
    }

    /// The facts held, in insertion order.
    pub fn get_facts(&self) -> (r: Vec<&Fact>)
        ensures
            r@.map_values(|f: &Fact| f@) == self@.facts,
    {
        let mut r: Vec<&Fact> = Vec::new();
        let mut i: usize = 0;
        while i < self.facts.len()
            invariant
                i <= self@.facts.len(),
                r@.map_values(|f: &Fact| f@) == self@.facts.subrange(0, i as int),
            decreases self@.facts.len() - i,
        {
            let ghost prev = r@;
            r.push(self.facts.get(i));
            assert(r@.map_values(|f: &Fact| f@) =~= prev.map_values(|f: &Fact| f@).push(self@.facts[i as int]));
            assert(self@.facts.subrange(0, i + 1 as int) =~= self@.facts.subrange(0, i as int).push(self@.facts[i as int]));
            i += 1;
        }
        assert(self@.facts.subrange(0, i as int) =~= self@.facts);
        r
    }

    /// The fact store, for reading by entity or as a whole.
    pub fn store(&self) -> (r: &FactStore)
        ensures
            r@ == self@.facts,
    {
        &self.facts
    }
}

} // verus!
