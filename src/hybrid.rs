//! The hybrid planner: turns a goal into seed facts, runs deduction and
//! reports the knowledge base.
use vstd::prelude::*;
use crate::engine::{deduction, EngineModel, SymbolicEngine};
use crate::store::inserted;
use crate::symbolic::{Fact, FactModel};
use crate::text::{decimal, decimal_text, is_substring, str_contains};

verus! {

/// Errors of the planner.
#[derive(Debug)]
pub enum HybridError {
    Planning(String),
}

/// One line of the report: `  * [entity].attribute = value`.
pub open spec fn fact_line(f: FactModel) -> Seq<char> {
    "  * ["@ + f.entity + "]."@ + f.attribute + " = "@ + f.value + "\n"@
}

/// The report lines of `facts`, in order.
pub open spec fn knowledge_lines(facts: Seq<FactModel>) -> Seq<char>
    decreases facts.len(),
{
    if facts.len() == 0 {
        Seq::empty()
    } else {
        knowledge_lines(facts.drop_last()) + fact_line(facts.last())
    }
}

/// The report of a planning run on `goal` that derived `count` facts and
/// ended with `facts`.
pub open spec fn plan_report(goal: Seq<char>, count: nat, facts: Seq<FactModel>) -> Seq<char> {
    "Plan Execution for '"@ + goal + "':\n"@ + "- Derived "@ + decimal(count)
        + " new symbolic facts.\n"@ + "- Current Knowledge Base:\n"@ + knowledge_lines(facts)
}

/// A fact held with full confidence.
pub open spec fn certain(entity: Seq<char>, attribute: Seq<char>, value: Seq<char>) -> FactModel {
    FactModel { entity, attribute, value, confidence: 100 }
}

/// The facts after seeding for `goal`: a contract-validation goal brings the
/// contract's status and amount, any other goal records itself.
pub open spec fn seeded(facts: Seq<FactModel>, goal: Seq<char>) -> Seq<FactModel> {
    if is_substring("Validar contrato"@, goal) {
        inserted(
            inserted(facts, certain("contract_123"@, "status"@, "active"@)),
            certain("contract_123"@, "amount"@, "50000"@),
        )
    } else {
        inserted(facts, certain("goal"@, "is"@, goal))
    }
}

/// Plans over a symbolic engine of its own.
pub struct HybridPlanner {
    symbolic: SymbolicEngine,
}

impl View for HybridPlanner {
    type V = EngineModel;

    closed spec fn view(&self) -> EngineModel {
        self.symbolic@
    }
}

impl HybridPlanner {
    /// No fact is held twice.
    pub open spec fn wf(&self) -> bool {
        self@.facts.no_duplicates()
    }

    pub fn new() -> (r: HybridPlanner)
        ensures
            r@.facts == Seq::<FactModel>::empty(),
            r@.rules == Seq::<crate::symbolic::RuleModel>::empty(),
            r.wf(),
    {
        HybridPlanner { symbolic: SymbolicEngine::new() }
    }

    /// Seeds facts for `goal`, deduces, and reports the derived count and
    /// every fact held.
    pub fn plan(&mut self, goal: &str) -> (r: Result<String, HybridError>)
        requires
            old(self).wf(),
        ensures
            final(self).wf(),
            deduction(
                (EngineModel { facts: seeded(old(self)@.facts, goal@), rules: old(self)@.rules }),
                final(self)@,
                final(self)@.facts.len() - seeded(old(self)@.facts, goal@).len(),
            ),
            r is Ok,
            r->Ok_0@ == plan_report(
                goal@,
                (final(self)@.facts.len() - seeded(old(self)@.facts, goal@).len()) as nat,
                final(self)@.facts,
            ),
    {
        if str_contains(goal, "Validar contrato") {
            self.symbolic.add_fact(Fact::new("contract_123", "status", "active"));
            self.symbolic.add_fact(Fact::new("contract_123", "amount", "50000"));
        } else {
            self.symbolic.add_fact(Fact::new("goal", "is", goal));
        }
        let ghost seeds = self@.facts;
        let new_facts = self.symbolic.deduce();
        let mut report = "Plan Execution for '".to_string().concat(goal);
        report = report.concat("':\n");
        report = report.concat("- Derived ");
        let count = decimal_text(new_facts);
        report = report.concat(count.as_str());
        report = report.concat(" new symbolic facts.\n");
        report = report.concat("- Current Knowledge Base:\n");
        let ghost head = report@;
        let facts = self.symbolic.get_facts();
        let ghost all = self@.facts;
        assert(facts@.map_values(|f: &Fact| f@) == all);
        let mut i: usize = 0;
        while i < facts.len()
            invariant
                i <= facts@.len(),
                facts@.map_values(|f: &Fact| f@) == all,
                report@ == head + knowledge_lines(all.subrange(0, i as int)),
            decreases facts@.len() - i,
        {
            let f = facts[i];
            assert(f@ == all[i as int]);
            report = report.concat("  * [");
            report = report.concat(f.entity.as_str());
            report = report.concat("].");
            report = report.concat(f.attribute.as_str());
            report = report.concat(" = ");
            report = report.concat(f.value.as_str());
            report = report.concat("\n");
            proof {
                let sub = all.subrange(0, i + 1 as int);
                assert(sub.drop_last() =~= all.subrange(0, i as int));
                assert(sub.last() == all[i as int]);
                assert(report@ =~= head + knowledge_lines(sub));
            }
            i += 1;
        }
        assert(all.subrange(0, i as int) =~= all);
        assert(report@ =~= plan_report(goal@, new_facts as nat, all));
        Ok(report)
    }
}

} // verus!
