//! A JSON document tree, the field lookup the schema codec uses, and the
//! text form of a tree (through serde_json).

use vstd::prelude::*;

verus! {

/// A JSON value. Numbers that are non-negative integers within `u64` are
/// `Number`; every other number (negative or fractional) is `OtherNumber`,
/// which the schema never accepts and only carries.
#[derive(Debug)]
pub enum JsonValue {
    Null,
    Bool(bool),
    Number(u64),
    OtherNumber(serde_json::Number),
    Str(String),
    Array(Vec<JsonValue>),
    Object(Vec<(String, JsonValue)>),
}

/// The value of member `key` in an object's members: the last one wins when
/// a key repeats.
pub open spec fn field_of(es: Seq<(String, JsonValue)>, key: Seq<char>) -> Option<JsonValue>
    decreases es.len(),
{
    if es.len() == 0 {
        None
    } else if es.last().0@ == key {
        Some(es.last().1)
    } else {
        field_of(es.drop_last(), key)
    }
}

/// Looks up member `key` among an object's members.
pub fn get_field<'a>(es: &'a Vec<(String, JsonValue)>, key: &str) -> (r: Option<&'a JsonValue>)
    ensures
        match r {
            Some(v) => field_of(es@, key@) == Some(*v),
            None => field_of(es@, key@).is_none(),
        },
{
    let k = key.to_owned();
    let mut i: usize = es.len();
    assert(es@.subrange(0, i as int) =~= es@);
    while i > 0
        invariant
            i <= es.len(),
            k@ == key@,
            field_of(es@, key@) == field_of(es@.subrange(0, i as int), key@),
        decreases i,
    {
        assert(es@.subrange(0, i as int).drop_last() =~= es@.subrange(0, i - 1));
        if es[i - 1].0 == k {
            return Some(&es[i - 1].1);
        }
        i = i - 1;
    }
    assert(es@.subrange(0, 0) =~= Seq::<(String, JsonValue)>::empty());
    None
}

/// The last member named `key` gives its value.
pub proof fn lemma_field_at(es: Seq<(String, JsonValue)>, i: int, key: Seq<char>)
    requires
        0 <= i < es.len(),
        es[i].0@ == key,
        forall|j: int| i < j < es.len() ==> (#[trigger] es[j]).0@ != key,
    ensures
        field_of(es, key) == Some(es[i].1),
    decreases es.len(),
{
    if i < es.len() - 1 {
        lemma_field_at(es.drop_last(), i, key);
    }
}

/// No member named `key`: no value.
pub proof fn lemma_field_absent(es: Seq<(String, JsonValue)>, key: Seq<char>)
    requires
        forall|j: int| 0 <= j < es.len() ==> (#[trigger] es[j]).0@ != key,
    ensures
        field_of(es, key).is_none(),
    decreases es.len(),
{
    if es.len() > 0 {
        lemma_field_absent(es.drop_last(), key);
    }
}

/// A member named other than `key`, inserted anywhere, leaves the value of
/// `key` as it was.
pub proof fn lemma_field_insert(es: Seq<(String, JsonValue)>, i: int, e: (String, JsonValue), key: Seq<char>)
    requires
        0 <= i <= es.len(),
        e.0@ != key,
    ensures
        field_of(es.insert(i, e), key) == field_of(es, key),
    decreases es.len(),
{
    if i == es.len() {
        assert(es.insert(i, e).drop_last() =~= es);
    } else {
        assert(es.insert(i, e).drop_last() =~= es.drop_last().insert(i, e));
        lemma_field_insert(es.drop_last(), i, e, key);
    }
}

#[verifier::external_type_specification]
#[verifier::external_body]
pub struct ExValue(serde_json::Value);

#[verifier::external_type_specification]
#[verifier::external_body]
pub struct ExNumber(serde_json::Number);

/// The tree that serde_json parses a text into, or `None` where the text is
/// not well-formed JSON.
pub uninterp spec fn parsed_json(text: Seq<char>) -> Option<JsonValue>;

/// The pretty-printed text that serde_json writes for a tree.
pub uninterp spec fn pretty_json(t: JsonValue) -> Seq<char>;

/// The text with leading and trailing whitespace removed.
pub uninterp spec fn trimmed(text: Seq<char>) -> Seq<char>;

/// Carries a serde_json value over into a tree, variant for variant.
#[verifier::external_body]
fn tree_from_value(v: serde_json::Value) -> JsonValue {
    match v {
        serde_json::Value::Null => JsonValue::Null,
        serde_json::Value::Bool(b) => JsonValue::Bool(b),
        serde_json::Value::Number(n) => match n.as_u64() {
            Some(u) => JsonValue::Number(u),
            None => JsonValue::OtherNumber(n),
        },
        serde_json::Value::String(s) => JsonValue::Str(s),
        serde_json::Value::Array(a) => JsonValue::Array(a.into_iter().map(tree_from_value).collect()),
        serde_json::Value::Object(m) => JsonValue::Object(m.into_iter().map(|(k, x)| (k, tree_from_value(x))).collect()),
    }
}

/// Carries a tree over into a serde_json value, variant for variant.
#[verifier::external_body]
fn value_from_tree(t: &JsonValue) -> serde_json::Value {
    match t {
        JsonValue::Null => serde_json::Value::Null,
        JsonValue::Bool(b) => serde_json::Value::Bool(*b),
        JsonValue::Number(n) => serde_json::Value::from(*n),
        JsonValue::OtherNumber(n) => serde_json::Value::Number(n.clone()),
        JsonValue::Str(s) => serde_json::Value::String(s.clone()),
        JsonValue::Array(a) => serde_json::Value::Array(a.iter().map(value_from_tree).collect()),
        JsonValue::Object(m) => serde_json::Value::Object(m.iter().map(|(k, x)| (k.clone(), value_from_tree(x))).collect()),
    }
}

/// Relies on serde_json::from_str (into serde_json::Value): it parses the
/// text, or fails where it is not well-formed; the outcome depends on the
/// text alone.
#[verifier::external_body]
pub(crate) fn parse_json(text: &str) -> (r: Option<JsonValue>)
    ensures
        r == parsed_json(text@),
{
    serde_json::from_str::<serde_json::Value>(text).ok().map(tree_from_value)
}

/// Relies on serde_json::to_string_pretty (of a serde_json::Value): the text
/// depends on the tree alone.
#[verifier::external_body]
pub(crate) fn write_json_pretty(t: &JsonValue) -> (r: String)
    ensures
        r@ == pretty_json(*t),
{
    serde_json::to_string_pretty(&value_from_tree(t)).unwrap_or_default()
}

/// Relies on str::trim: the text without its leading and trailing whitespace.
#[verifier::external_body]
pub(crate) fn trim(text: &str) -> (r: &str)
    ensures
        r@ == trimmed(text@),
{
    text.trim()
}

} // verus!
