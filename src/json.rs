//! Facts read from model output: a JSON array of objects with `entity`,
//! `attribute`, `value` and `confidence` members.
use vstd::prelude::*;
use crate::store::facts_view;
use crate::symbolic::{Fact, FactModel, SymbolicError};

verus! {

#[verifier::external_type_specification]
#[verifier::external_body]
pub struct ExJsonValue(serde_json::Value);

/// The elements of `text` read as a JSON array, or `None` where it is not one.
pub uninterp spec fn json_array(text: Seq<char>) -> Option<Seq<serde_json::Value>>;

/// The member `key` of a JSON object, or `None` where there is none.
pub uninterp spec fn json_member(v: serde_json::Value, key: Seq<char>) -> Option<serde_json::Value>;

/// The text of a JSON string, or `None` for any other kind of value.
pub uninterp spec fn json_text(v: serde_json::Value) -> Option<Seq<char>>;

/// A JSON number as a `u64`, or `None` where it is no such number.
pub uninterp spec fn json_u64(v: serde_json::Value) -> Option<u64>;

/// Relies on `serde_json::from_str::<Vec<Value>>`: the result depends on
/// the text alone.
#[verifier::external_body]
fn parse_json_array(text: &str) -> (r: Option<Vec<serde_json::Value>>)
    ensures
        r is Some == json_array(text@) is Some,
        r is Some ==> r->Some_0@ == json_array(text@)->Some_0,
{
    serde_json::from_str::<Vec<serde_json::Value>>(text).ok()
}

/// Relies on `serde_json::Value::get` with a string key: the member of an
/// object, `None` for a missing key or a value that is no object.
#[verifier::external_body]
fn member<'a>(v: &'a serde_json::Value, key: &str) -> (r: Option<&'a serde_json::Value>)
    ensures
        r is Some == json_member(*v, key@) is Some,
        r is Some ==> *r->Some_0 == json_member(*v, key@)->Some_0,
{
    v.get(key)
}

/// Relies on `serde_json::Value::as_str`: the text of a string value.
#[verifier::external_body]
fn text_of(v: &serde_json::Value) -> (r: Option<String>)
    ensures
        r is Some == json_text(*v) is Some,
        r is Some ==> r->Some_0@ == json_text(*v)->Some_0,
{
    v.as_str().map(|s| s.to_string())
}

/// Relies on `serde_json::Value::as_u64`: a number that fits in a `u64`.
#[verifier::external_body]
fn u64_of(v: &serde_json::Value) -> (r: Option<u64>)
    ensures
        r == json_u64(*v),
{
    v.as_u64()
}

/// The fact that four fields make, if all are there and the confidence lies
/// in `0..=100`.
pub open spec fn fields_fact(
    entity: Option<Seq<char>>,
    attribute: Option<Seq<char>>,
    value: Option<Seq<char>>,
    confidence: Option<u64>,
) -> Option<FactModel> {
    if entity is Some && attribute is Some && value is Some && confidence is Some
        && confidence->Some_0 <= 100 {
        Some(
            FactModel {
                entity: entity->Some_0,
                attribute: attribute->Some_0,
                value: value->Some_0,
                confidence: confidence->Some_0 as u8,
            },
        )
    } else {
        None
    }
}

pub open spec fn opt_view(s: Option<String>) -> Option<Seq<char>> {
    match s {
        Some(t) => Some(t@),
        None => None,
    }
}

pub open spec fn member_text(v: serde_json::Value, key: Seq<char>) -> Option<Seq<char>> {
    match json_member(v, key) {
        Some(m) => json_text(m),
        None => None,
    }
}

pub open spec fn member_u64(v: serde_json::Value, key: Seq<char>) -> Option<u64> {
    match json_member(v, key) {
        Some(m) => json_u64(m),
        None => None,
    }
}

/// The fact that one array element describes, if it has every member.
pub open spec fn item_fact(v: serde_json::Value) -> Option<FactModel> {
    fields_fact(
        member_text(v, "entity"@),
        member_text(v, "attribute"@),
        member_text(v, "value"@),
        member_u64(v, "confidence"@),
    )
}

/// The facts of the elements that have every member, in order.
pub open spec fn facts_of_items(items: Seq<serde_json::Value>) -> Seq<FactModel>
    decreases items.len(),
{
    if items.len() == 0 {
        Seq::empty()
    } else {
        facts_of_items(items.drop_last()) + match item_fact(items.last()) {
            Some(f) => seq![f],
            None => Seq::empty(),
        }
    }
}

/// Builds a fact from its four fields when all are present and the
/// confidence lies in `0..=100`.
pub fn fact_from_fields(
    entity: Option<String>,
    attribute: Option<String>,
    value: Option<String>,
    confidence: Option<u64>,
) -> (r: Option<Fact>)
    ensures
        (match r {
            Some(f) => Some(f@),
            None => None::<FactModel>,
        }) == fields_fact(opt_view(entity), opt_view(attribute), opt_view(value), confidence),
{
    match (entity, attribute, value, confidence) {
        (Some(entity), Some(attribute), Some(value), Some(c)) => {
            if c <= 100 {
                Some(Fact { entity, attribute, value, confidence: c as u8 })
            } else {
                None
            }
        },
        _ => None,
    }
}

fn item_to_fact(v: &serde_json::Value) -> (r: Option<Fact>)
    ensures
        (match r {
            Some(f) => Some(f@),
            None => None::<FactModel>,
        }) == item_fact(*v),
{
    let entity = match member(v, "entity") {
        Some(m) => text_of(m),
        None => None,
    };
    let attribute = match member(v, "attribute") {
        Some(m) => text_of(m),
        None => None,
    };
    let value = match member(v, "value") {
        Some(m) => text_of(m),
        None => None,
    };
    let confidence = match member(v, "confidence") {
        Some(m) => u64_of(m),
        None => None,
    };
    assert(opt_view(entity) == member_text(*v, "entity"@));
    assert(opt_view(attribute) == member_text(*v, "attribute"@));
    assert(opt_view(value) == member_text(*v, "value"@));
    fact_from_fields(entity, attribute, value, confidence)
}

/// Reads facts out of a JSON array of objects; elements that lack a member
/// or carry a confidence above 100 are skipped, and text that is not such an
/// array is a parse error.
pub fn interpret_as_facts(text: &str) -> (r: Result<Vec<Fact>, SymbolicError>)
    ensures
        r is Err <==> json_array(text@) is None,
        r is Err ==> r->Err_0 is Parse,
        r is Ok ==> facts_view(r->Ok_0@) == facts_of_items(json_array(text@)->Some_0),
{
    let mut r: Vec<Fact> = Vec::new();
    match parse_json_array(text) {
        Some(items) => {
            let ghost all = items@;
            let mut i: usize = 0;
            while i < items.len()
                invariant
                    i <= items@.len(),
                    all == items@,
                    facts_view(r@) == facts_of_items(all.subrange(0, i as int)),
                decreases items@.len() - i,
            {
                let ghost prev = r@;
                let got = item_to_fact(&items[i]);
                match got {
                    Some(f) => {
                        r.push(f);
                        assert(facts_view(r@) =~= facts_view(prev).push(item_fact(all[i as int])->Some_0));
                    },
                    None => {},
                }
                proof {
                    let sub = all.subrange(0, i + 1 as int);
                    assert(sub.drop_last() =~= all.subrange(0, i as int));
                    assert(sub.last() == all[i as int]);
                    assert(facts_view(r@) =~= facts_of_items(sub));
                }
                i += 1;
            }
            assert(all.subrange(0, i as int) =~= all);
            Ok(r)
        },
        None => Err(SymbolicError::Parse("text is not a JSON array".to_string())),
    }
}

} // verus!
