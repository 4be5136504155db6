//! A plain tree representation of parsed JSON (and YAML) documents, with
//! verified lookup and update, and trusted parsers that rely on serde.
//!
//! Numbers outside the `i64` range (in particular floating-point numbers)
//! are represented as `Null`: no part of the pipeline reads them.
use vstd::prelude::*;

verus! {

/// A parsed document: the input scan results and the policy document are
/// both read through this type.
pub enum JsonValue {
    Null,
    Bool(bool),
    Int(i64),
    Str(String),
    Arr(Vec<JsonValue>),
    Obj(Vec<(String, JsonValue)>),
}

/// The value of the first entry of `entries` whose key reads `key`.
pub open spec fn obj_lookup(entries: Seq<(String, JsonValue)>, key: Seq<char>) -> Option<JsonValue>
    decreases entries.len(),
{
    if entries.len() == 0 {
        None
    } else if entries[0].0@ == key {
        Some(entries[0].1)
    } else {
        obj_lookup(entries.skip(1), key)
    }
}

impl JsonValue {
    /// Member lookup: the value under `key` when `self` is an object that
    /// has it.
    pub open spec fn spec_get(self, key: Seq<char>) -> Option<JsonValue> {
        match self {
            JsonValue::Obj(entries) => obj_lookup(entries@, key),
            _ => None,
        }
    }

    /// The string content when `self` is a string.
    pub open spec fn spec_str(self) -> Option<Seq<char>> {
        match self {
            JsonValue::Str(s) => Some(s@),
            _ => None,
        }
    }

    /// Member lookup.
    pub fn get<'a>(&'a self, key: &str) -> (r: Option<&'a JsonValue>)
        ensures
            match r {
                Some(v) => self.spec_get(key@) == Some(*v),
                None => self.spec_get(key@) is None,
            },
    {
        match self {
            JsonValue::Obj(entries) => {
                let n = entries.len();
                let mut i: usize = 0;
                proof {
                    assert(entries@.skip(0) =~= entries@);
                }
                while i < n
                    invariant
                        self is Obj,
                        self->Obj_0@ == entries@,
                        n == entries@.len(),
                        i <= n,
                        obj_lookup(entries@, key@) == obj_lookup(entries@.skip(i as int), key@),
                    decreases n - i,
                {
                    if crate::strutil::str_eq(entries[i].0.as_str(), key) {
                        proof {
                            assert(entries@.skip(i as int).len() > 0);
                            assert(entries@.skip(i as int)[0] == entries@[i as int]);
                            assert(obj_lookup(entries@.skip(i as int), key@) == Some(
                                entries@[i as int].1,
                            ));
                        }
                        return Some(&entries[i].1);
                    }
                    proof {
                        assert(entries@.skip(i as int).skip(1) =~= entries@.skip(i + 1));
                        assert(entries@.skip(i as int)[0] == entries@[i as int]);
                    }
                    i += 1;
                }
                proof {
                    assert(entries@.skip(n as int) =~= Seq::<(String, JsonValue)>::empty());
                }
                None
            },
            _ => None,
        }
    }

    /// The string content when `self` is a string.
    pub fn as_str<'a>(&'a self) -> (r: Option<&'a String>)
        ensures
            match r {
                Some(s) => self.spec_str() == Some(s@),
                None => self.spec_str() is None,
            },
    {
        match self {
            JsonValue::Str(s) => Some(s),
            _ => None,
        }
    }

    /// The elements when `self` is an array.
    pub fn as_arr<'a>(&'a self) -> (r: Option<&'a Vec<JsonValue>>)
        ensures
            match r {
                Some(a) => self is Arr && self->Arr_0 == *a,
                None => !(self is Arr),
            },
    {
        match self {
            JsonValue::Arr(a) => Some(a),
            _ => None,
        }
    }

    /// The entries when `self` is an object.
    pub fn as_obj<'a>(&'a self) -> (r: Option<&'a Vec<(String, JsonValue)>>)
        ensures
            match r {
                Some(e) => self is Obj && self->Obj_0 == *e,
                None => !(self is Obj),
            },
    {
        match self {
            JsonValue::Obj(e) => Some(e),
            _ => None,
        }
    }

    /// The number when `self` is an integer.
    pub fn as_int(&self) -> (r: Option<i64>)
        ensures
            match r {
                Some(n) => self == JsonValue::Int(n),
                None => !(self is Int),
            },
    {
        match self {
            JsonValue::Int(n) => Some(*n),
            _ => None,
        }
    }

    /// Whether `self` is the null value.
    pub fn is_null(&self) -> (r: bool)
        ensures
            r == (self is Null),
    {
        match self {
            JsonValue::Null => true,
            _ => false,
        }
    }

    /// Whether `self` is a string.
    pub fn is_string(&self) -> (r: bool)
        ensures
            r == (self is Str),
    {
        match self {
            JsonValue::Str(_) => true,
            _ => false,
        }
    }
}

/// Whether position `i` holds the first entry of `es` whose key reads
/// `key`.
pub open spec fn first_match(es: Seq<(String, JsonValue)>, key: Seq<char>, i: int) -> bool {
    &&& 0 <= i < es.len()
    &&& es[i].0@ == key
    &&& forall|j: int| 0 <= j < i ==> es[j].0@ != key
}

/// Whether some entry of `es` has a key that reads `key`.
pub open spec fn has_key(es: Seq<(String, JsonValue)>, key: Seq<char>) -> bool {
    exists|i: int| 0 <= i < es.len() && es[i].0@ == key
}

/// What `set_key` leaves behind: an object holding `val` under `key`, with
/// the first matching entry replaced, a fresh entry appended when the key
/// was absent, and everything else unchanged. A non-object start is
/// replaced by a one-entry object.
pub open spec fn set_key_post(
    before: JsonValue,
    key: Seq<char>,
    val: JsonValue,
    after: JsonValue,
) -> bool {
    &&& after is Obj
    &&& match before {
        JsonValue::Obj(entries) => {
            let es = entries@;
            let res = after->Obj_0@;
            if has_key(es, key) {
                exists|i: int| #[trigger] first_match(es, key, i) && res == es.update(
                    i,
                    (es[i].0, val),
                )
            } else {
                res.len() == es.len() + 1 && res.take(es.len() as int) == es && res.last().0@
                    == key && res.last().1 == val
            }
        },
        _ => after->Obj_0@.len() == 1 && after->Obj_0@[0].0@ == key && after->Obj_0@[0].1 == val,
    }
}

/// Stores `val` under `key`, turning `self` into an object if it was not
/// one.
pub fn set_key(doc: &mut JsonValue, key: &str, val: JsonValue)
    ensures
        set_key_post(*old(doc), key@, val, *final(doc)),
{
    let is_obj = match doc {
        JsonValue::Obj(_) => true,
        _ => false,
    };
    if !is_obj {
        let mut entries: Vec<(String, JsonValue)> = Vec::new();
        entries.push((String::from_str(key), val));
        *doc = JsonValue::Obj(entries);
        return;
    }
    match doc {
        JsonValue::Obj(entries) => {
            let ghost es = entries@;
            let n = entries.len();
            let mut idx: usize = n;
            let mut i: usize = 0;
            while i < n
                invariant_except_break
                    i <= n,
                    idx == n,
                    forall|j: int| 0 <= j < i ==> es[j].0@ != key@,
                invariant
                    n == es.len(),
                    entries@ == es,
                ensures
                    idx <= n,
                    idx == n ==> forall|j: int| 0 <= j < n ==> es[j].0@ != key@,
                    idx < n ==> first_match(es, key@, idx as int),
                decreases n - i,
            {
                if crate::strutil::str_eq(entries[i].0.as_str(), key) {
                    idx = i;
                    break;
                }
                i += 1;
            }
            if idx < n {
                let name = entries[idx].0.clone();
                entries.set(idx, (name, val));
                proof {
                    assert(has_key(es, key@));
                    assert(entries@ =~= es.update(idx as int, (es[idx as int].0, val)));
                }
            } else {
                proof {
                    assert(!has_key(es, key@)) by {
                        if has_key(es, key@) {
                            let j = choose|j: int| 0 <= j < es.len() && es[j].0@ == key@;
                            assert(es[j].0@ != key@);
                        }
                    }
                }
                entries.push((String::from_str(key), val));
                proof {
                    assert(entries@.take(es.len() as int) =~= es);
                }
            }
        },
        _ => {
            proof {
                assert(false);
            }
        },
    }
}

/// Removes and returns the value under `key`, consuming the document.
pub fn obj_take(v: JsonValue, key: &str) -> (r: Option<JsonValue>)
    ensures
        r == v.spec_get(key@),
{
    match v {
        JsonValue::Obj(entries) => {
            let ghost es = entries@;
            let mut entries = entries;
            let n = entries.len();
            let mut i: usize = 0;
            proof {
                assert(es.skip(0) =~= es);
            }
            while i < n
                invariant
                    v is Obj,
                    v->Obj_0@ == es,
                    entries@ == es,
                    n == es.len(),
                    i <= n,
                    obj_lookup(es, key@) == obj_lookup(es.skip(i as int), key@),
                decreases n - i,
            {
                if crate::strutil::str_eq(entries[i].0.as_str(), key) {
                    proof {
                        assert(es.skip(i as int).len() > 0);
                        assert(es.skip(i as int)[0] == es[i as int]);
                        assert(obj_lookup(es.skip(i as int), key@) == Some(es[i as int].1));
                    }
                    let (_, val) = entries.remove(i);
                    return Some(val);
                }
                proof {
                    assert(es.skip(i as int).skip(1) =~= es.skip(i + 1));
                    assert(es.skip(i as int)[0] == es[i as int]);
                }
                i += 1;
            }
            proof {
                assert(es.skip(n as int) =~= Seq::<(String, JsonValue)>::empty());
            }
            None
        },
        _ => None,
    }
}

#[verifier::external_type_specification]
#[verifier::external_body]
pub struct ExSerdeValue(serde_json::Value);

/// The document that a text parses to, when it parses: what
/// `serde_json::from_str` returns, translated into this crate's tree.
pub uninterp spec fn spec_json_doc(s: Seq<char>) -> Option<JsonValue>;

/// The document that a text parses to under YAML rules, when it parses.
pub uninterp spec fn spec_yaml_doc(s: Seq<char>) -> Option<JsonValue>;

/// Relies on the variants of serde_json::Value: each is carried over to the
/// corresponding variant of this crate's tree, one arm each; numbers with no
/// `i64` representation become `Null`.
#[verifier::external_body]
fn json_tree(v: &serde_json::Value) -> JsonValue {
    match v {
        serde_json::Value::Null => JsonValue::Null,
        serde_json::Value::Bool(b) => JsonValue::Bool(*b),
        serde_json::Value::Number(n) => match n.as_i64() {
            Some(i) => JsonValue::Int(i),
            None => JsonValue::Null,
        },
        serde_json::Value::String(s) => JsonValue::Str(s.clone()),
        serde_json::Value::Array(a) => JsonValue::Arr(a.iter().map(json_tree).collect()),
        serde_json::Value::Object(m) => JsonValue::Obj(
            m.iter().map(|(k, x)| (k.clone(), json_tree(x))).collect(),
        ),
    }
}

/// Relies on serde_json::from_str: whether a text parses as JSON, and to
/// what document, depends on the text alone.
#[verifier::external_body]
pub(crate) fn json_from_text(s: &str) -> (r: Option<JsonValue>)
    ensures
        r == spec_json_doc(s@),
{
    match serde_json::from_str::<serde_json::Value>(s) {
        Ok(v) => Some(json_tree(&v)),
        Err(_) => None,
    }
}

/// Relies on serde_yaml::from_str: whether a text parses as YAML, and to
/// what document, depends on the text alone.
#[verifier::external_body]
pub(crate) fn yaml_from_text(s: &str) -> (r: Option<JsonValue>)
    ensures
        r == spec_yaml_doc(s@),
{
    match serde_yaml::from_str::<serde_json::Value>(s) {
        Ok(v) => Some(json_tree(&v)),
        Err(_) => None,
    }
}

} // verus!
