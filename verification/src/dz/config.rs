//! Application settings: a JSON value per key. Reading a key gives back the
//! last value written to it; texts come back as written, other values as
//! their JSON text.
use vstd::prelude::*;
use crate::assoc::{assoc_find, assoc_view, first_key_at, lemma_first_key, lemma_no_key, lemma_push_absent, lemma_update_first};
use crate::json::{jview, json_parse, parse_json, JsonValue, JsonView};
use crate::text::{copy_string, owned};

verus! {

/// What serde_json writes for a value (compact form).
pub uninterp spec fn json_text(v: JsonView) -> Seq<char>;

/// A `serde_json::Value` with the same content, member for member.
#[verifier::external_body]
fn json_to_serde(v: &JsonValue) -> serde_json::Value {
    match v {
        JsonValue::Null => serde_json::Value::Null,
        JsonValue::Bool(b) => serde_json::Value::Bool(*b),
        JsonValue::Number(n) => serde_json::from_str(n).unwrap_or(serde_json::Value::Null),
        JsonValue::Str(s) => serde_json::Value::String(s.clone()),
        JsonValue::Array(a) => serde_json::Value::Array(a.iter().map(json_to_serde).collect()),
        JsonValue::Object(o) => serde_json::Value::Object(o.iter().map(|(k, x)| (k.clone(), json_to_serde(x))).collect()),
    }
}

/// `serde_json::Value::to_string`: the compact JSON text of a value, taken
/// to depend on the value alone.
#[verifier::external_body]
fn dump_json(v: &JsonValue) -> (r: String)
    ensures
        r@ == json_text(jview(*v)),
{
    json_to_serde(v).to_string()
}

/// A deep copy of a JSON value.
pub fn copy_json(v: &JsonValue) -> (r: JsonValue)
    ensures
        jview(r) == jview(*v),
    decreases v,
{
    match v {
        JsonValue::Null => JsonValue::Null,
        JsonValue::Bool(b) => JsonValue::Bool(*b),
        JsonValue::Number(n) => JsonValue::Number(copy_string(n)),
        JsonValue::Str(s) => JsonValue::Str(copy_string(s)),
        JsonValue::Array(a) => {
            proof {
                crate::dz::dzparse::lemma_array_view(*a);
            }
            let mut out: Vec<JsonValue> = Vec::new();
            let mut i: usize = 0;
            while i < a.len()
                invariant
                    i <= a@.len(),
                    *v == JsonValue::Array(*a),
                    crate::dz::dzparse::item_views(out@) == crate::dz::dzparse::item_views(a@).subrange(0, i as int),
                decreases a@.len() - i,
            {
                proof {
                    assert(decreases_to!(*v => (*v)->Array_0));
                    assert(decreases_to!(*a => a@));
                    assert(decreases_to!(a@ => a@[i as int]));
                }
                let x = copy_json(&a[i]);
                let ghost before = out@;
                let ghost xv = jview(x);
                out.push(x);
                assert(crate::dz::dzparse::item_views(out@) =~= crate::dz::dzparse::item_views(before).push(xv));
                assert(crate::dz::dzparse::item_views(a@).subrange(0, i + 1) =~= crate::dz::dzparse::item_views(
                    a@,
                ).subrange(0, i as int).push(xv));
                i = i + 1;
            }
            assert(crate::dz::dzparse::item_views(a@).subrange(0, a@.len() as int) =~= crate::dz::dzparse::item_views(
                a@,
            ));
            proof {
                crate::dz::dzparse::lemma_array_view(out);
            }
            JsonValue::Array(out)
        },
        JsonValue::Object(kv) => {
            proof {
                crate::dz::dzparse::lemma_object_view(*kv);
            }
            let mut out: Vec<(String, JsonValue)> = Vec::new();
            let mut i: usize = 0;
            while i < kv.len()
                invariant
                    i <= kv@.len(),
                    *v == JsonValue::Object(*kv),
                    crate::dz::dzparse::member_views(out@) == crate::dz::dzparse::member_views(kv@).subrange(
                        0,
                        i as int,
                    ),
                decreases kv@.len() - i,
            {
                proof {
                    assert(decreases_to!(*v => (*v)->Object_0));
                    assert(decreases_to!(*kv => kv@));
                    assert(decreases_to!(kv@ => kv@[i as int]));
                    assert(decreases_to!(kv@[i as int] => kv@[i as int].1));
                }
                let x = copy_json(&kv[i].1);
                let k = copy_string(&kv[i].0);
                let ghost before = out@;
                let ghost ev = (k@, jview(x));
                out.push((k, x));
                assert(crate::dz::dzparse::member_views(out@) =~= crate::dz::dzparse::member_views(before).push(ev));
                assert(crate::dz::dzparse::member_views(kv@).subrange(0, i + 1) =~= crate::dz::dzparse::member_views(
                    kv@,
                ).subrange(0, i as int).push(ev));
                i = i + 1;
            }
            assert(crate::dz::dzparse::member_views(kv@).subrange(0, kv@.len() as int)
                =~= crate::dz::dzparse::member_views(kv@));
            proof {
                crate::dz::dzparse::lemma_object_view(out);
            }
            JsonValue::Object(out)
        },
    }
}

/// The settings held in memory.
pub struct ConfigData {
    entries: Vec<(String, JsonValue)>,
}

/// What `get` reads from a stored value: a text as is, anything else as JSON.
pub open spec fn shown(v: JsonView) -> Seq<char> {
    match v {
        JsonView::Str(s) => s,
        _ => json_text(v),
    }
}

impl ConfigData {
    /// The settings: each key's value.
    pub closed spec fn values(&self) -> Map<Seq<char>, JsonView> {
        assoc_view(self.entries@).map_values(|v: JsonValue| jview(v))
    }

    /// No settings.
    pub fn new() -> (r: ConfigData)
        ensures
            r.values() == Map::<Seq<char>, JsonView>::empty(),
    {
        let r = ConfigData { entries: Vec::new() };
        assert(r.values() =~= Map::<Seq<char>, JsonView>::empty());
        r
    }

    /// The settings of a saved file: the members of a JSON object; None
    /// when the text is no JSON object.
    pub fn from_text(content: &str) -> (r: Option<ConfigData>)
        ensures
            match json_parse(content@) {
                Ok(doc) => match jview(doc) {
                    JsonView::Object(_) => r is Some,
                    _ => r is None,
                },
                Err(_) => r is None,
            },
            r matches Some(c) ==> json_parse(content@) matches Ok(doc) && doc matches JsonValue::Object(kv)
                && c.values() == assoc_view(kv@).map_values(|v: JsonValue| jview(v)),
    {
        match parse_json(content) {
            Ok(doc) => match doc {
                JsonValue::Object(kv) => Some(ConfigData { entries: kv }),
                _ => None,
            },
            Err(_) => None,
        }
    }

    /// The settings as (key, value) pairs.
    pub fn pairs(&self) -> (r: &Vec<(String, JsonValue)>)
        ensures
            assoc_view(r@).map_values(|v: JsonValue| jview(v)) == self.values(),
    {
        &self.entries
    }

    /// The value of `key`, as JSON.
    pub fn get_json(&self, key: &str) -> (r: Option<JsonValue>)
        ensures
            match r {
                Some(v) => self.values().dom().contains(key@) && jview(v) == self.values()[key@],
                None => !self.values().dom().contains(key@),
            },
    {
        let k = owned(key);
        match assoc_find(&self.entries, &k) {
            Some(i) => {
                proof {
                    lemma_first_key(self.entries@, k@, i as int);
                }
                Some(copy_json(&self.entries[i].1))
            },
            None => {
                proof {
                    lemma_no_key(self.entries@, k@);
                }
                None
            },
        }
    }

    /// The value of `key` as text: a text as stored, anything else as JSON.
    pub fn get(&self, key: &str) -> (r: Option<String>)
        ensures
            match r {
                Some(s) => self.values().dom().contains(key@) && s@ == shown(self.values()[key@]),
                None => !self.values().dom().contains(key@),
            },
    {
        match self.get_json(key) {
            Some(JsonValue::Str(s)) => Some(s),
            Some(other) => Some(dump_json(&other)),
            None => None,
        }
    }

    /// Stores `value` under `key`.
    pub fn set_json(&mut self, key: &str, value: JsonValue)
        ensures
            final(self).values() == old(self).values().insert(key@, jview(value)),
    {
        let k = owned(key);
        let ghost vv = jview(value);
        match assoc_find(&self.entries, &k) {
            Some(i) => {
                let name = self.entries[i].0.clone();
                proof {
                    lemma_update_first(self.entries@, k@, i as int, value);
                }
                self.entries.set(i, (name, value));
            },
            None => {
                proof {
                    lemma_no_key(self.entries@, k@);
                    lemma_push_absent(self.entries@, (k, value));
                }
                self.entries.push((k, value));
            },
        }
        assert(self.values() =~= old(self).values().insert(key@, vv));
    }

    /// Stores the text `value` under `key`.
    pub fn set(&mut self, key: &str, value: &str)
        ensures
            final(self).values() == old(self).values().insert(key@, JsonView::Str(value@)),
    {
        self.set_json(key, JsonValue::Str(owned(value)));
    }
}

/// A read gives back the last text written to a key, and writing a key
/// leaves the others as they were.
pub proof fn lemma_read_after_write(
    m: Map<Seq<char>, JsonView>,
    k: Seq<char>,
    value: Seq<char>,
    other: Seq<char>,
)
    requires
        other != k,
    ensures
        m.insert(k, JsonView::Str(value)).dom().contains(k),
        shown(m.insert(k, JsonView::Str(value))[k]) == value,
        m.insert(k, JsonView::Str(value)).dom().contains(other) == m.dom().contains(other),
        m.dom().contains(other) ==> m.insert(k, JsonView::Str(value))[other] == m[other],
{
}

} // verus!
