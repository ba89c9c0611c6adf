use hypercore::json::{fact_from_fields, interpret_as_facts};
use hypercore::{Fact, SymbolicError};

fn fact(e: &str, a: &str, v: &str, c: u8) -> Fact {
    Fact { entity: e.to_string(), attribute: a.to_string(), value: v.to_string(), confidence: c }
}

#[test]
fn reads_every_complete_object() {
    let text = r#"[
        { "entity": "contract_123", "attribute": "status", "value": "active", "confidence": 99 },
        { "entity": "contract_123", "attribute": "amount", "value": "50000", "confidence": 95 }
    ]"#;
    assert_eq!(
        interpret_as_facts(text).unwrap(),
        vec![fact("contract_123", "status", "active", 99), fact("contract_123", "amount", "50000", 95)]
    );
}

#[test]
fn skips_incomplete_or_mistyped_objects() {
    let text = r#"[
        { "entity": "a", "attribute": "b", "value": "c" },
        { "entity": "a", "attribute": "b", "value": 5, "confidence": 10 },
        { "entity": "a", "attribute": "b", "value": "c", "confidence": -1 },
        7,
        { "entity": "d", "attribute": "e", "value": "f", "confidence": 0 }
    ]"#;
    assert_eq!(interpret_as_facts(text).unwrap(), vec![fact("d", "e", "f", 0)]);
}

#[test]
fn non_array_text_is_a_parse_error() {
    assert!(matches!(
        interpret_as_facts("(Simulated OpenAI Response for: x)"),
        Err(SymbolicError::Parse(_))
    ));
    assert!(matches!(interpret_as_facts(r#"{ "entity": "a" }"#), Err(SymbolicError::Parse(_))));
    assert!(matches!(interpret_as_facts("[1, 2"), Err(SymbolicError::Parse(_))));
}

#[test]
fn empty_array_gives_no_facts() {
    assert!(interpret_as_facts("[]").unwrap().is_empty());
}

#[test]
fn confidence_above_hundred_is_rejected() {
    let text = r#"[
        { "entity": "a", "attribute": "b", "value": "c", "confidence": 300 },
        { "entity": "a", "attribute": "b", "value": "c", "confidence": 101 },
        { "entity": "a", "attribute": "b", "value": "c", "confidence": 100 }
    ]"#;
    assert_eq!(interpret_as_facts(text).unwrap(), vec![fact("a", "b", "c", 100)]);
}

#[test]
fn fields_make_a_fact_only_when_all_present() {
    let s = |x: &str| Some(x.to_string());
    assert_eq!(fact_from_fields(s("a"), s("b"), s("c"), Some(57)), Some(fact("a", "b", "c", 57)));
    assert_eq!(fact_from_fields(s("a"), s("b"), s("c"), Some(100)), Some(fact("a", "b", "c", 100)));
    assert_eq!(fact_from_fields(s("a"), s("b"), s("c"), Some(101)), None);
    assert_eq!(fact_from_fields(s("a"), s("b"), s("c"), Some(257)), None);
    assert_eq!(fact_from_fields(None, s("b"), s("c"), Some(1)), None);
    assert_eq!(fact_from_fields(s("a"), s("b"), s("c"), None), None);
}
