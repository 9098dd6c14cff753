//! The library's own representation of JSON documents exchanged with the
//! browser and the daemon: request parameters that the library builds and
//! responses that it reads.

use vstd::prelude::*;

verus! {

/// A JSON number as the protocol carries it: a non-negative integer, a
/// negative integer, or any other number, kept as its decimal text.
#[derive(Debug, Clone, PartialEq)]
pub enum JsonNumber {
    PosInt(u64),
    NegInt(i64),
    Float(String),
}

/// A JSON value.
#[derive(Debug, PartialEq)]
pub enum JsonValue {
    Null,
    Bool(bool),
    Number(JsonNumber),
    Str(String),
    Array(Vec<JsonValue>),
    Object(Vec<(String, JsonValue)>),
}

/// Mathematical model of a JSON number.
pub enum NumberModel {
    PosInt(u64),
    NegInt(i64),
    Float(Seq<char>),
}

/// Mathematical model of a JSON value: strings as character sequences,
/// arrays as sequences, objects as their entries in order.
pub enum Json {
    Null,
    Bool(bool),
    Num(NumberModel),
    Str(Seq<char>),
    Array(Seq<Json>),
    Object(Seq<(Seq<char>, Json)>),
}

impl JsonNumber {
    pub open spec fn model(self) -> NumberModel {
        match self {
            JsonNumber::PosInt(n) => NumberModel::PosInt(n),
            JsonNumber::NegInt(n) => NumberModel::NegInt(n),
            JsonNumber::Float(t) => NumberModel::Float(t@),
        }
    }
}

impl JsonValue {
    pub open spec fn model(self) -> Json
        decreases self,
    {
        match self {
            JsonValue::Null => Json::Null,
            JsonValue::Bool(b) => Json::Bool(b),
            JsonValue::Number(n) => Json::Num(n.model()),
            JsonValue::Str(s) => Json::Str(s@),
            JsonValue::Array(items) => Json::Array(
                Seq::new(
                    items@.len(),
                    |i: int|
                        if 0 <= i < items@.len() {
                            items@[i].model()
                        } else {
                            Json::Null
                        },
                ),
            ),
            JsonValue::Object(entries) => Json::Object(
                Seq::new(
                    entries@.len(),
                    |i: int|
                        if 0 <= i < entries@.len() {
                            (entries@[i].0@, entries@[i].1.model())
                        } else {
                            (Seq::empty(), Json::Null)
                        },
                ),
            ),
        }
    }
}

/// The models of the items of an array.
pub open spec fn items_model(items: Seq<JsonValue>) -> Seq<Json> {
    Seq::new(items.len(), |i: int| items[i].model())
}

/// The models of the entries of an object.
pub open spec fn entries_model(entries: Seq<(String, JsonValue)>) -> Seq<(Seq<char>, Json)> {
    Seq::new(entries.len(), |i: int| (entries[i].0@, entries[i].1.model()))
}

/// The value that `key` maps to in the object `j` (the first entry with
/// that key); `None` when `j` is not an object or has no such entry.
pub open spec fn json_get(j: Json, key: Seq<char>) -> Option<Json> {
    match j {
        Json::Object(entries) => lookup(entries, key),
        _ => None,
    }
}

/// The value of the first entry named `key`.
pub open spec fn lookup(entries: Seq<(Seq<char>, Json)>, key: Seq<char>) -> Option<Json>
    decreases entries.len(),
{
    if entries.len() == 0 {
        None
    } else if entries[0].0 == key {
        Some(entries[0].1)
    } else {
        lookup(entries.drop_first(), key)
    }
}

/// The string that `key` maps to in `j`, if it maps to a string.
pub open spec fn json_get_str(j: Json, key: Seq<char>) -> Option<Seq<char>> {
    match json_get(j, key) {
        Some(Json::Str(s)) => Some(s),
        _ => None,
    }
}

/// The boolean that `key` maps to in `j`, if it maps to a boolean.
pub open spec fn json_get_bool(j: Json, key: Seq<char>) -> Option<bool> {
    match json_get(j, key) {
        Some(Json::Bool(b)) => Some(b),
        _ => None,
    }
}

/// The non-negative integer that `key` maps to in `j`, if it maps to one
/// that fits in `u64`.
pub open spec fn json_get_u64(j: Json, key: Seq<char>) -> Option<u64> {
    match json_get(j, key) {
        Some(Json::Num(NumberModel::PosInt(n))) => Some(n),
        _ => None,
    }
}

/// The JSON number for an unsigned integer.
pub open spec fn json_uint(n: u64) -> Json {
    Json::Num(NumberModel::PosInt(n))
}

/// The JSON number for a signed integer.
pub open spec fn json_int(n: i64) -> Json {
    if n >= 0 {
        Json::Num(NumberModel::PosInt(n as u64))
    } else {
        Json::Num(NumberModel::NegInt(n))
    }
}

pub proof fn lemma_object_model(entries: Vec<(String, JsonValue)>)
    ensures
        JsonValue::Object(entries).model() == Json::Object(entries_model(entries@)),
{
    let m = JsonValue::Object(entries).model();
    assert(m matches Json::Object(es) && es =~= entries_model(entries@));
}

pub proof fn lemma_array_model(items: Vec<JsonValue>)
    ensures
        JsonValue::Array(items).model() == Json::Array(items_model(items@)),
{
    let m = JsonValue::Array(items).model();
    assert(m matches Json::Array(es) && es =~= items_model(items@));
}

impl JsonValue {
    /// A JSON string with the text of `s`.
    pub fn string(s: &str) -> (v: JsonValue)
        ensures
            v.model() == Json::Str(s@),
    {
        JsonValue::Str(s.to_owned())
    }

    /// A JSON number for an unsigned integer.
    pub fn unsigned(n: u64) -> (v: JsonValue)
        ensures
            v.model() == json_uint(n),
    {
        JsonValue::Number(JsonNumber::PosInt(n))
    }

    /// A JSON number for a signed integer.
    pub fn signed(n: i64) -> (v: JsonValue)
        ensures
            v.model() == json_int(n),
    {
        if n >= 0 {
            JsonValue::Number(JsonNumber::PosInt(n as u64))
        } else {
            JsonValue::Number(JsonNumber::NegInt(n))
        }
    }

    /// A JSON object with the entries `entries`, in order.
    pub fn object(entries: Vec<(String, JsonValue)>) -> (v: JsonValue)
        ensures
            v.model() == Json::Object(entries_model(entries@)),
    {
        proof {
            lemma_object_model(entries);
        }
        JsonValue::Object(entries)
    }

    /// A JSON array with the items `items`, in order.
    pub fn array(items: Vec<JsonValue>) -> (v: JsonValue)
        ensures
            v.model() == Json::Array(items_model(items@)),
    {
        proof {
            lemma_array_model(items);
        }
        JsonValue::Array(items)
    }

    /// The value under `key`, when `self` is an object with such an entry
    /// (the first one, when there are several).
    pub fn get(&self, key: &str) -> (r: Option<&JsonValue>)
        ensures
            match r {
                Some(v) => json_get(self.model(), key@) == Some(v.model()),
                None => json_get(self.model(), key@) is None,
            },
    {
        match self {
            JsonValue::Object(entries) => {
                proof {
                    lemma_object_model(*entries);
                }
                let ghost es = entries_model(entries@);
                let k = key.to_owned();
                let mut i: usize = 0;
                assert(es.skip(0) =~= es);
                while i < entries.len()
                    invariant
                        0 <= i <= entries@.len(),
                        es == entries_model(entries@),
                        self.model() == Json::Object(es),
                        k@ == key@,
                        lookup(es, key@) == lookup(es.skip(i as int), key@),
                    decreases entries@.len() - i,
                {
                    assert(es.skip(i as int)[0] == es[i as int]);
                    assert(es.skip(i as int).drop_first() =~= es.skip(i + 1));
                    if entries[i].0 == k {
                        return Some(&entries[i].1);
                    }
                    i = i + 1;
                }
                assert(es.skip(i as int) =~= Seq::<(Seq<char>, Json)>::empty());
                None
            },
            _ => None,
        }
    }

    /// The text of a string value.
    pub fn as_str(&self) -> (r: Option<&str>)
        ensures
            match self.model() {
                Json::Str(s) => r matches Some(t) && t@ == s,
                _ => r is None,
            },
    {
        match self {
            JsonValue::Str(s) => Some(s.as_str()),
            _ => None,
        }
    }

    /// The value of a boolean.
    pub fn as_bool(&self) -> (r: Option<bool>)
        ensures
            match self.model() {
                Json::Bool(b) => r == Some(b),
                _ => r is None,
            },
    {
        match self {
            JsonValue::Bool(b) => Some(*b),
            _ => None,
        }
    }

    /// The value of a non-negative integer that fits in `u64`.
    pub fn as_u64(&self) -> (r: Option<u64>)
        ensures
            match self.model() {
                Json::Num(NumberModel::PosInt(n)) => r == Some(n),
                _ => r is None,
            },
    {
        match self {
            JsonValue::Number(JsonNumber::PosInt(n)) => Some(*n),
            _ => None,
        }
    }

    /// Whether this is `null`.
    pub fn is_null(&self) -> (r: bool)
        ensures
            r == (self.model() == Json::Null),
    {
        match self {
            JsonValue::Null => true,
            _ => false,
        }
    }

    /// The string under `key`, if there is one.
    pub fn get_str(&self, key: &str) -> (r: Option<&str>)
        ensures
            match json_get_str(self.model(), key@) {
                Some(s) => r matches Some(t) && t@ == s,
                None => r is None,
            },
    {
        match self.get(key) {
            Some(v) => v.as_str(),
            None => None,
        }
    }

    /// The boolean under `key`, if there is one.
    pub fn get_bool(&self, key: &str) -> (r: Option<bool>)
        ensures
            r == json_get_bool(self.model(), key@),
    {
        match self.get(key) {
            Some(v) => v.as_bool(),
            None => None,
        }
    }

    /// The unsigned integer under `key`, if there is one.
    pub fn get_u64(&self, key: &str) -> (r: Option<u64>)
        ensures
            r == json_get_u64(self.model(), key@),
    {
        match self.get(key) {
            Some(v) => v.as_u64(),
            None => None,
        }
    }
}


impl JsonNumber {
    /// A copy of this number.
    pub fn duplicate(&self) -> (r: JsonNumber)
        ensures
            r.model() == self.model(),
    {
        match self {
            JsonNumber::PosInt(n) => JsonNumber::PosInt(*n),
            JsonNumber::NegInt(n) => JsonNumber::NegInt(*n),
            JsonNumber::Float(t) => JsonNumber::Float(t.clone()),
        }
    }
}

impl JsonValue {
    /// A deep copy of this value.
    #[verifier::loop_isolation(false)]
    pub fn duplicate(&self) -> (r: JsonValue)
        ensures
            r.model() == self.model(),
        decreases self,
    {
        match self {
            JsonValue::Null => JsonValue::Null,
            JsonValue::Bool(b) => JsonValue::Bool(*b),
            JsonValue::Number(n) => JsonValue::Number(n.duplicate()),
            JsonValue::Str(t) => JsonValue::Str(t.clone()),
            JsonValue::Array(items) => {
                proof {
                    lemma_array_model(*items);
                }
                let mut out: Vec<JsonValue> = Vec::new();
                assert(items_model(out@) =~= items_model(items@).take(0));
                let mut i: usize = 0;
                while i < items.len()
                    invariant
                        0 <= i <= items@.len(),
                        items_model(out@) == items_model(items@).take(i as int),
                    decreases items@.len() - i,
                {
                    proof {
                        assert(decreases_to!(*self => *items));
                        assert(decreases_to!(*items => items@));
                        assert(decreases_to!(items@ => items@[i as int]));
                    }
                    let item = items[i].duplicate();
                    push_item(&mut out, item);
                    assert(items_model(items@).take(i + 1) =~= items_model(items@).take(
                        i as int,
                    ).push(item.model()));
                    i = i + 1;
                }
                assert(items_model(items@).take(i as int) =~= items_model(items@));
                JsonValue::array(out)
            },
            JsonValue::Object(entries) => {
                proof {
                    lemma_object_model(*entries);
                }
                let mut out: Vec<(String, JsonValue)> = Vec::new();
                assert(entries_model(out@) =~= entries_model(entries@).take(0));
                let mut i: usize = 0;
                while i < entries.len()
                    invariant
                        0 <= i <= entries@.len(),
                        entries_model(out@) == entries_model(entries@).take(i as int),
                    decreases entries@.len() - i,
                {
                    proof {
                        assert(decreases_to!(*self => *entries));
                        assert(decreases_to!(*entries => entries@));
                        assert(decreases_to!(entries@ => entries@[i as int]));
                        assert(decreases_to!(entries@[i as int] => entries@[i as int].1));
                    }
                    let value = entries[i].1.duplicate();
                    push_entry(&mut out, entries[i].0.as_str(), value);
                    assert(entries_model(entries@).take(i + 1) =~= entries_model(entries@).take(
                        i as int,
                    ).push((entries@[i as int].0@, value.model())));
                    i = i + 1;
                }
                assert(entries_model(entries@).take(i as int) =~= entries_model(entries@));
                JsonValue::object(out)
            },
        }
    }
}

/// Appends the entry `key: value` to the entries of an object under
/// construction.
pub fn push_entry(entries: &mut Vec<(String, JsonValue)>, key: &str, value: JsonValue)
    ensures
        entries_model(final(entries)@) == entries_model(old(entries)@).push((key@, value.model())),
{
    entries.push((key.to_owned(), value));
    assert(entries_model(entries@) =~= entries_model(old(entries)@).push((key@, value.model())));
}

/// Appends `value` to the items of an array under construction.
pub fn push_item(items: &mut Vec<JsonValue>, value: JsonValue)
    ensures
        items_model(final(items)@) == items_model(old(items)@).push(value.model()),
{
    items.push(value);
    assert(items_model(items@) =~= items_model(old(items)@).push(value.model()));
}

} // verus!
