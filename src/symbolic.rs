//! Facts, conditions, rules, the deduplicating fact store and the engine.
use vstd::prelude::*;
use crate::text::is_substring;

verus! {

#[derive(Debug)]
/// Errors that the layer producing facts and rules reports.
pub enum SymbolicError {
    Parse(String),
    Logic(String),
}

pub type SymbolicResult<T> = Result<T, SymbolicError>;

/// The mathematical value of a [`Fact`].
pub struct FactModel {
    pub entity: Seq<char>,
    pub attribute: Seq<char>,
    pub value: Seq<char>,
    pub confidence: u8,
}

#[derive(Debug, Hash)]
/// A piece of knowledge: an entity-attribute-value triple and a confidence
/// score in `0..=100`.
pub struct Fact {
    pub entity: String,
    pub attribute: String,
    pub value: String,
    pub confidence: u8,
}

impl View for Fact {
    type V = FactModel;

    open spec fn view(&self) -> FactModel {
        FactModel {
            entity: self.entity@,
            attribute: self.attribute@,
            value: self.value@,
            confidence: self.confidence,
        }
    }
}

impl Fact {
    /// A fact held with full confidence.
    pub fn new(entity: &str, attribute: &str, value: &str) -> (r: Fact)
        ensures
            r@ == (FactModel {
                entity: entity@,
                attribute: attribute@,
                value: value@,
                confidence: 100,
            }),
    {
        Fact {
            entity: entity.to_string(),
            attribute: attribute.to_string(),
            value: value.to_string(),
            confidence: 100,
        }
    }

    /// Two facts are the same fact when all four fields agree.
    pub fn same_as(&self, other: &Fact) -> (r: bool)
        ensures
            r == (self@ == other@),
    {
        self.confidence == other.confidence && self.entity == other.entity && self.attribute
            == other.attribute && self.value == other.value
    }
}

impl Clone for Fact {
    fn clone(&self) -> (r: Self)
        ensures
            r@ == self@,
    {
        Fact {
            entity: self.entity.clone(),
            attribute: self.attribute.clone(),
            value: self.value.clone(),
            confidence: self.confidence,
        }
    }
}

impl PartialEq for Fact {
    fn eq(&self, other: &Fact) -> (r: bool) {
        self.same_as(other)
    }
}

impl vstd::std_specs::cmp::PartialEqSpecImpl for Fact {
    open spec fn obeys_eq_spec() -> bool {
        true
    }

    open spec fn eq_spec(&self, other: &Fact) -> bool {
        self@ == other@
    }
}

impl Eq for Fact {

}

/// How a condition compares a fact's value with its target.
#[derive(Clone, Copy, Debug, PartialEq, Eq, Structural)]
pub enum Operator {
    Equals,
    Contains,
}

/// The mathematical value of a [`Condition`].
pub struct ConditionModel {
    pub attribute: Seq<char>,
    pub operator: Operator,
    pub value: Seq<char>,
}

/// A test against the fact store: some fact carries `attribute` and a value
/// that `operator` relates to `value`.
#[derive(Clone, Debug)]
pub struct Condition {
    pub attribute: String,
    pub operator: Operator,
    pub value: String,
}

impl View for Condition {
    type V = ConditionModel;

    open spec fn view(&self) -> ConditionModel {
        ConditionModel { attribute: self.attribute@, operator: self.operator, value: self.value@ }
    }
}

/// The mathematical value of a [`Rule`].
pub struct RuleModel {
    pub name: Seq<char>,
    pub conditions: Seq<ConditionModel>,
    pub head: FactModel,
}

/// An implication: when every condition holds, the head fact is asserted.
#[derive(Clone, Debug)]
pub struct Rule {
    pub name: String,
    pub conditions: Vec<Condition>,
    pub head: Fact,
}

pub open spec fn conditions_view(conds: Seq<Condition>) -> Seq<ConditionModel> {
    conds.map_values(|c: Condition| c@)
}

impl View for Rule {
    type V = RuleModel;

    open spec fn view(&self) -> RuleModel {
        RuleModel {
            name: self.name@,
            conditions: conditions_view(self.conditions@),
            head: self.head@,
        }
    }
}

/// `op` relates the fact value `actual` to the condition's `target`.
pub open spec fn op_holds(op: Operator, actual: Seq<char>, target: Seq<char>) -> bool {
    match op {
        Operator::Equals => actual == target,
        Operator::Contains => is_substring(target, actual),
    }
}

/// The single fact `f` satisfies the condition `c`.
pub open spec fn fact_meets(f: FactModel, c: ConditionModel) -> bool {
    f.attribute == c.attribute && op_holds(c.operator, f.value, c.value)
}

/// Some fact of `facts`, about any entity, satisfies `c`.
pub open spec fn condition_holds(facts: Set<FactModel>, c: ConditionModel) -> bool {
    exists|f: FactModel| #[trigger] facts.contains(f) && fact_meets(f, c)
}

/// Every condition of `conds` is satisfied by `facts`.
pub open spec fn body_holds(facts: Set<FactModel>, conds: Seq<ConditionModel>) -> bool {
    forall|i: int| 0 <= i < conds.len() ==> condition_holds(facts, #[trigger] conds[i])
}

/// The rule's body holds in `facts` and its head is not yet known.
pub open spec fn fires(facts: Set<FactModel>, r: RuleModel) -> bool {
    body_holds(facts, r.conditions) && !facts.contains(r.head)
}

/// The heads that one round over `rules` derives from `facts`.
pub open spec fn derived(facts: Set<FactModel>, rules: Seq<RuleModel>) -> Set<FactModel> {
    Set::new(|f: FactModel| exists|r: RuleModel| #[trigger] rules.contains(r) && fires(facts, r) && r.head == f)
}

/// The facts known after one round: every head derived is added at once.
pub open spec fn step(facts: Set<FactModel>, rules: Seq<RuleModel>) -> Set<FactModel> {
    facts.union(derived(facts, rules))
}

/// No rule of `rules` fires in `facts`.
pub open spec fn is_fixed_point(facts: Set<FactModel>, rules: Seq<RuleModel>) -> bool {
    forall|r: RuleModel| #[trigger] rules.contains(r) ==> !fires(facts, r)
}

/// The facts known after `rounds` rounds over `rules`, starting from `facts`.
pub open spec fn saturate(facts: Set<FactModel>, rules: Seq<RuleModel>, rounds: nat) -> Set<FactModel>
    decreases rounds,
{
    if rounds == 0 {
        facts
    } else {
        saturate(step(facts, rules), rules, (rounds - 1) as nat)
    }
}

} // verus!
