//! A JSON document as plain values, read from text by serde_json.
use vstd::prelude::*;

verus! {

/// A JSON value. A number is held as the text serde_json writes for it
/// (not necessarily the text it was read from); objects keep their members
/// in the order serde_json gives them, one member per key.
#[derive(Debug)]
pub enum JsonValue {
    Null,
    Bool(bool),
    Number(String),
    Str(String),
    Array(Vec<JsonValue>),
    Object(Vec<(String, JsonValue)>),
}

/// A JSON value with texts as char sequences.
pub enum JsonView {
    Null,
    Bool(bool),
    Number(Seq<char>),
    Str(Seq<char>),
    Array(Seq<JsonView>),
    Object(Seq<(Seq<char>, JsonView)>),
}

/// The view of a JSON value.
pub open spec fn jview(j: JsonValue) -> JsonView
    decreases j,
{
    match j {
        JsonValue::Null => JsonView::Null,
        JsonValue::Bool(b) => JsonView::Bool(b),
        JsonValue::Number(n) => JsonView::Number(n@),
        JsonValue::Str(s) => JsonView::Str(s@),
        JsonValue::Array(v) => JsonView::Array(
            Seq::new(
                v@.len(),
                |i: int|
                    if 0 <= i < v@.len() {
                        proof {
                            assert(decreases_to!(v => v@));
                            assert(decreases_to!(v@ => v@[i]));
                        }
                        jview(v@[i])
                    } else {
                        JsonView::Null
                    },
            ),
        ),
        JsonValue::Object(kv) => JsonView::Object(
            Seq::new(
                kv@.len(),
                |i: int|
                    if 0 <= i < kv@.len() {
                        proof {
                            assert(decreases_to!(kv => kv@));
                            assert(decreases_to!(kv@ => kv@[i]));
                            assert(decreases_to!(kv@[i] => kv@[i].1));
                        }
                        (kv@[i].0@, jview(kv@[i].1))
                    } else {
                        (Seq::empty(), JsonView::Null)
                    },
            ),
        ),
    }
}

#[verifier::external_type_specification]
#[verifier::external_body]
pub struct ExSerdeJsonValue(serde_json::Value);

/// What serde_json makes of a text: the document, or the text of its error.
pub uninterp spec fn json_parse(s: Seq<char>) -> Result<JsonValue, Seq<char>>;

/// The same value as a `JsonValue`, member for member.
#[verifier::external_body]
fn json_from_serde(v: &serde_json::Value) -> JsonValue {
    match v {
        serde_json::Value::Null => JsonValue::Null,
        serde_json::Value::Bool(b) => JsonValue::Bool(*b),
        serde_json::Value::Number(n) => JsonValue::Number(n.to_string()),
        serde_json::Value::String(s) => JsonValue::Str(s.clone()),
        serde_json::Value::Array(a) => JsonValue::Array(a.iter().map(json_from_serde).collect()),
        serde_json::Value::Object(o) => JsonValue::Object(
            o.iter().map(|(k, x)| (k.clone(), json_from_serde(x))).collect(),
        ),
    }
}

/// `serde_json::from_str::<serde_json::Value>`: the parsed document, or the
/// error's `Display` text. The result is taken to depend on the text alone.
#[verifier::external_body]
pub(crate) fn parse_json(s: &str) -> (r: Result<JsonValue, String>)
    ensures
        match r {
            Ok(v) => json_parse(s@) == Ok::<JsonValue, Seq<char>>(v),
            Err(e) => json_parse(s@) == Err::<JsonValue, Seq<char>>(e@),
        },
{
    match serde_json::from_str::<serde_json::Value>(s) {
        Ok(v) => Ok(json_from_serde(&v)),
        Err(e) => Err(e.to_string()),
    }
}

/// The member `key` of an object's members, if any.
pub open spec fn member(kv: Seq<(String, JsonValue)>, key: Seq<char>) -> Option<JsonValue> {
    if crate::assoc::assoc_view(kv).dom().contains(key) {
        Some(crate::assoc::assoc_view(kv)[key])
    } else {
        None
    }
}

/// The member `key` of an object's members, if any.
pub fn get_member<'a>(kv: &'a Vec<(String, JsonValue)>, key: &str) -> (r: Option<&'a JsonValue>)
    ensures
        match r {
            Some(v) => member(kv@, key@) == Some(*v),
            None => member(kv@, key@) is None,
        },
{
    let k = crate::text::owned(key);
    match crate::assoc::assoc_find(kv, &k) {
        Some(i) => {
            proof {
                crate::assoc::lemma_first_key(kv@, k@, i as int);
            }
            Some(&kv[i].1)
        },
        None => {
            proof {
                crate::assoc::lemma_no_key(kv@, k@);
            }
            None
        },
    }
}

} // verus!
