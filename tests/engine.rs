use hypercore::text::decimal_text;
use hypercore::{Condition, Fact, FactStore, Operator, Rule, SymbolicEngine};

fn fact(e: &str, a: &str, v: &str, c: u8) -> Fact {
    Fact { entity: e.to_string(), attribute: a.to_string(), value: v.to_string(), confidence: c }
}

fn cond(a: &str, op: Operator, v: &str) -> Condition {
    Condition { attribute: a.to_string(), operator: op, value: v.to_string() }
}

fn rule(name: &str, conditions: Vec<Condition>, head: Fact) -> Rule {
    Rule { name: name.to_string(), conditions, head }
}

fn chain_rules() -> Vec<Rule> {
    vec![
        rule("first", vec![cond("a", Operator::Equals, "1")], fact("x", "b", "2", 100)),
        rule("second", vec![cond("b", Operator::Equals, "2")], fact("x", "c", "3", 100)),
    ]
}

#[test]
fn single_step_rule() {
    let mut e = SymbolicEngine::new();
    e.add_fact(fact("alice", "age", "30", 100));
    e.add_rule(rule("adult", vec![cond("age", Operator::Equals, "30")], fact("alice", "category", "adult", 100)));
    assert_eq!(e.deduce(), 1);
    let facts = e.get_facts();
    assert_eq!(facts.len(), 2);
    assert!(facts.iter().any(|f| **f == fact("alice", "category", "adult", 100)));
}

#[test]
fn chained_rules_in_one_call() {
    let mut e = SymbolicEngine::new();
    e.add_fact(fact("x", "a", "1", 100));
    for r in chain_rules().into_iter().rev() {
        e.add_rule(r);
    }
    assert_eq!(e.deduce(), 2);
    assert!(e.store().contains(&fact("x", "b", "2", 100)));
    assert!(e.store().contains(&fact("x", "c", "3", 100)));
}

#[test]
fn no_match_leaves_store_unchanged() {
    let mut e = SymbolicEngine::new();
    e.add_fact(fact("contract_123", "status", "active", 100));
    e.add_fact(fact("contract_124", "status", "500 pending", 100));
    e.add_rule(rule("big", vec![cond("amount", Operator::Contains, "500")], fact("contract_123", "audit", "yes", 100)));
    let before = e.store().all();
    assert_eq!(e.deduce(), 0);
    assert_eq!(e.store().all(), before);
}

#[test]
fn contains_operator_fires() {
    let mut e = SymbolicEngine::new();
    e.add_fact(fact("doc1", "text", "juros abusivos detectados", 90));
    e.add_rule(rule("abuse", vec![cond("text", Operator::Contains, "abusivos")], fact("doc1", "flag", "abusive", 100)));
    assert_eq!(e.deduce(), 1);
    assert!(e.store().contains(&fact("doc1", "flag", "abusive", 100)));
}

#[test]
fn contains_needs_a_real_substring() {
    let mut e = SymbolicEngine::new();
    e.add_fact(fact("doc1", "text", "juros", 90));
    e.add_rule(rule("abuse", vec![cond("text", Operator::Contains, "abusivos")], fact("doc1", "flag", "abusive", 100)));
    assert_eq!(e.deduce(), 0);
}

#[test]
fn equals_is_exact() {
    let mut e = SymbolicEngine::new();
    e.add_fact(fact("alice", "age", "300", 100));
    e.add_rule(rule("adult", vec![cond("age", Operator::Equals, "30")], fact("alice", "category", "adult", 100)));
    assert_eq!(e.deduce(), 0);
}

#[test]
fn empty_rule_set_derives_nothing() {
    let mut e = SymbolicEngine::new();
    e.add_fact(fact("a", "b", "c", 1));
    e.add_fact(fact("d", "e", "f", 2));
    assert_eq!(e.deduce(), 0);
    assert_eq!(e.get_facts().len(), 2);
}

#[test]
fn second_deduce_returns_zero() {
    let mut e = SymbolicEngine::new();
    e.add_fact(fact("x", "a", "1", 100));
    for r in chain_rules() {
        e.add_rule(r);
    }
    assert_eq!(e.deduce(), 2);
    let after_first = e.store().all();
    assert_eq!(e.deduce(), 0);
    assert_eq!(e.store().all(), after_first);
}

#[test]
fn inserting_twice_keeps_one_copy() {
    let mut s = FactStore::new();
    assert!(s.insert(fact("a", "b", "c", 50)));
    assert!(!s.insert(fact("a", "b", "c", 50)));
    assert_eq!(s.len(), 1);
    let mut e = SymbolicEngine::new();
    e.add_fact(fact("a", "b", "c", 50));
    e.add_fact(fact("a", "b", "c", 50));
    assert_eq!(e.get_facts().len(), 1);
}

#[test]
fn confidence_makes_facts_distinct() {
    let mut s = FactStore::new();
    assert!(s.insert(fact("a", "b", "c", 50)));
    assert!(s.insert(fact("a", "b", "c", 60)));
    assert_eq!(s.len(), 2);
    assert!(!s.contains(&fact("a", "b", "c", 70)));
}

#[test]
fn deduce_never_shrinks_the_store() {
    let mut e = SymbolicEngine::new();
    e.add_fact(fact("x", "a", "1", 100));
    e.add_fact(fact("y", "a", "2", 100));
    e.add_rule(rule("r", vec![cond("a", Operator::Equals, "2")], fact("x", "a", "1", 100)));
    let before = e.store().all();
    assert_eq!(e.deduce(), 0);
    let after = e.store().all();
    assert!(after.len() >= before.len());
    assert_eq!(&after[..before.len()], &before[..]);
}

#[test]
fn long_chain_finishes() {
    let mut e = SymbolicEngine::new();
    e.add_fact(fact("n", "step", "0", 100));
    let n = 30;
    for i in (0..n).rev() {
        let from = format!("{}", i);
        let to = format!("{}", i + 1);
        e.add_rule(rule("next", vec![cond("step", Operator::Equals, &from)], fact("n", "step", &to, 100)));
    }
    assert_eq!(e.deduce(), n);
    assert_eq!(e.get_facts().len(), n + 1);
}

#[test]
fn rule_order_does_not_change_result() {
    let mut rules = chain_rules();
    rules.push(rule("third", vec![cond("c", Operator::Contains, "3"), cond("a", Operator::Equals, "1")], fact("y", "d", "4", 80)));
    let mut forward = SymbolicEngine::new();
    let mut backward = SymbolicEngine::new();
    forward.add_fact(fact("x", "a", "1", 100));
    backward.add_fact(fact("x", "a", "1", 100));
    for r in rules.iter() {
        forward.add_rule(r.clone());
    }
    for r in rules.iter().rev() {
        backward.add_rule(r.clone());
    }
    assert_eq!(forward.deduce(), 3);
    assert_eq!(backward.deduce(), 3);
    let a = forward.store().all();
    let b = backward.store().all();
    assert_eq!(a.len(), b.len());
    for f in a.iter() {
        assert!(backward.store().contains(f));
    }
}

#[test]
fn duplicate_heads_count_once() {
    let mut e = SymbolicEngine::new();
    e.add_fact(fact("x", "a", "1", 100));
    e.add_rule(rule("one", vec![cond("a", Operator::Equals, "1")], fact("x", "b", "2", 100)));
    e.add_rule(rule("two", vec![cond("a", Operator::Contains, "1")], fact("x", "b", "2", 100)));
    assert_eq!(e.deduce(), 1);
    assert_eq!(e.get_facts().len(), 2);
}

#[test]
fn conditions_match_any_entity() {
    let mut e = SymbolicEngine::new();
    e.add_fact(fact("bob", "age", "30", 100));
    e.add_rule(rule("adult", vec![cond("age", Operator::Equals, "30")], fact("alice", "category", "adult", 100)));
    assert_eq!(e.deduce(), 1);
}

#[test]
fn empty_body_always_fires() {
    let mut e = SymbolicEngine::new();
    e.add_rule(rule("axiom", vec![], fact("world", "exists", "yes", 100)));
    assert_eq!(e.deduce(), 1);
    assert_eq!(e.deduce(), 0);
}

#[test]
fn every_condition_must_hold() {
    let mut e = SymbolicEngine::new();
    e.add_fact(fact("x", "a", "1", 100));
    e.add_rule(rule("both", vec![cond("a", Operator::Equals, "1"), cond("b", Operator::Equals, "2")], fact("x", "c", "3", 100)));
    assert_eq!(e.deduce(), 0);
}

#[test]
fn head_already_known_is_not_counted() {
    let mut e = SymbolicEngine::new();
    e.add_fact(fact("x", "a", "1", 100));
    e.add_fact(fact("x", "b", "2", 100));
    e.add_rule(rule("one", vec![cond("a", Operator::Equals, "1")], fact("x", "b", "2", 100)));
    assert_eq!(e.deduce(), 0);
}

#[test]
fn by_entity_selects_exactly() {
    let mut s = FactStore::new();
    s.insert(fact("alice", "age", "30", 100));
    s.insert(fact("bob", "age", "40", 100));
    s.insert(fact("alice", "city", "Rio", 90));
    let got = s.by_entity("alice");
    assert_eq!(got, vec![fact("alice", "age", "30", 100), fact("alice", "city", "Rio", 90)]);
    assert!(s.by_entity("ali").is_empty());
    assert_eq!(s.get(1).entity, "bob");
}

#[test]
fn new_fact_is_certain() {
    let f = Fact::new("a", "b", "c");
    assert_eq!(f, fact("a", "b", "c", 100));
    assert!(f.same_as(&fact("a", "b", "c", 100)));
    assert!(!f.same_as(&fact("a", "b", "c", 99)));
}

#[test]
fn decimal_text_writes_digits() {
    assert_eq!(decimal_text(0), "0");
    assert_eq!(decimal_text(7), "7");
    assert_eq!(decimal_text(1234), "1234");
    assert_eq!(decimal_text(usize::MAX), format!("{}", usize::MAX));
}
