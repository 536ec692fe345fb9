//! A JSON document model: the values that the protocol reads from requests
//! and writes into responses, with a mathematical view for contracts.
use vstd::prelude::*;

verus! {

/// A JSON number as it arrives from the wire: a non-negative integer, a
/// negative integer, or any other number kept in its decimal text form.
#[derive(Debug, PartialEq)]
pub enum JsonNumber {
    PosInt(u64),
    NegInt(i64),
    Decimal(String),
}

/// An executable JSON value.
#[derive(Debug, PartialEq)]
pub enum JsonValue {
    Null,
    Bool(bool),
    Number(JsonNumber),
    String(String),
    Array(Vec<JsonValue>),
    Object(Vec<(String, JsonValue)>),
}

/// The mathematical form of a JSON number.
pub enum NumberModel {
    PosInt(u64),
    NegInt(i64),
    Decimal(Seq<char>),
}

/// The mathematical form of a JSON value: strings as character sequences,
/// arrays as sequences, objects as sequences of key/value entries.
pub enum Json {
    Null,
    Bool(bool),
    Number(NumberModel),
    Str(Seq<char>),
    Array(Seq<Json>),
    Object(Seq<(Seq<char>, Json)>),
}

pub open spec fn number_model(n: &JsonNumber) -> NumberModel {
    match n {
        JsonNumber::PosInt(u) => NumberModel::PosInt(*u),
        JsonNumber::NegInt(i) => NumberModel::NegInt(*i),
        JsonNumber::Decimal(s) => NumberModel::Decimal(s@),
    }
}

pub open spec fn json_model(v: &JsonValue) -> Json
    decreases v,
{
    match v {
        JsonValue::Null => Json::Null,
        JsonValue::Bool(b) => Json::Bool(*b),
        JsonValue::Number(n) => Json::Number(number_model(n)),
        JsonValue::String(s) => Json::Str(s@),
        JsonValue::Array(items) => Json::Array(
            Seq::new(
                items@.len(),
                |i: int|
                    if 0 <= i < items@.len() {
                        json_model(&items@[i])
                    } else {
                        Json::Null
                    },
            ),
        ),
        JsonValue::Object(entries) => Json::Object(
            Seq::new(
                entries@.len(),
                |i: int|
                    if 0 <= i < entries@.len() {
                        (entries@[i].0@, json_model(&entries@[i].1))
                    } else {
                        (Seq::empty(), Json::Null)
                    },
            ),
        ),
    }
}

impl View for JsonValue {
    type V = Json;

    open spec fn view(&self) -> Json {
        json_model(self)
    }
}

/// The value of the first entry whose key is `key`, if any.
pub open spec fn lookup(entries: Seq<(Seq<char>, Json)>, key: Seq<char>) -> Option<Json>
    decreases entries.len(),
{
    if entries.len() == 0 {
        None
    } else if entries[0].0 == key {
        Some(entries[0].1)
    } else {
        lookup(entries.drop_first(), key)
    }
}

impl Json {
    /// The member `key` of an object; `None` for a missing key or a non-object.
    pub open spec fn get(self, key: Seq<char>) -> Option<Json> {
        match self {
            Json::Object(entries) => lookup(entries, key),
            _ => None,
        }
    }

    /// Indexing by key: the member `key`, or `Null` where there is none.
    pub open spec fn at(self, key: Seq<char>) -> Json {
        match self.get(key) {
            Some(v) => v,
            None => Json::Null,
        }
    }

    pub open spec fn as_text(self) -> Option<Seq<char>> {
        match self {
            Json::Str(s) => Some(s),
            _ => None,
        }
    }

    pub open spec fn as_u64(self) -> Option<u64> {
        match self {
            Json::Number(NumberModel::PosInt(n)) => Some(n),
            _ => None,
        }
    }

    pub open spec fn as_bool(self) -> Option<bool> {
        match self {
            Json::Bool(b) => Some(b),
            _ => None,
        }
    }

    pub open spec fn is_object(self) -> bool {
        self is Object
    }
}

/// Whether two strings hold the same characters.
pub fn same_text(a: &str, b: &str) -> (r: bool)
    ensures
        r == (a@ == b@),
{
    let x = String::from_str(a);
    let y = String::from_str(b);
    x.eq(&y)
}

impl JsonValue {
    /// The member `key` of an object (the first entry with that key).
    pub fn get(&self, key: &str) -> (r: Option<&JsonValue>)
        ensures
            match r {
                Some(v) => self@.get(key@) == Some(v@),
                None => self@.get(key@) is None,
            },
    {
        match self {
            JsonValue::Object(entries) => {
                let ghost m = self@->Object_0;
                let mut i: usize = 0;
                assert(m.skip(0) =~= m);
                while i < entries.len()
                    invariant
                        0 <= i <= entries@.len(),
                        m.len() == entries@.len(),
                        forall|j: int|
                            0 <= j < entries@.len() ==> #[trigger] m[j] == (
                                entries@[j].0@,
                                json_model(&entries@[j].1),
                            ),
                        lookup(m, key@) == lookup(m.skip(i as int), key@),
                        self@.get(key@) == lookup(m, key@),
                    decreases entries@.len() - i,
                {
                    let ghost rest = m.skip(i as int);
                    assert(rest[0] == m[i as int]);
                    if same_text(entries[i].0.as_str(), key) {
                        assert(rest.len() > 0);
                        assert(rest[0].0 == key@);
                        assert(lookup(rest, key@) == Some(rest[0].1));
                        return Some(&entries[i].1);
                    }
                    assert(rest.drop_first() =~= m.skip(i + 1));
                    i = i + 1;
                }
                None
            },
            _ => None,
        }
    }

    /// The member `key` when it is a string (JSON `v[key].as_str()`).
    pub fn text_at(&self, key: &str) -> (r: Option<&String>)
        ensures
            match r {
                Some(s) => self@.at(key@).as_text() == Some(s@),
                None => self@.at(key@).as_text() is None,
            },
    {
        match self.get(key) {
            Some(JsonValue::String(s)) => Some(s),
            _ => None,
        }
    }

    /// The member `key` when it is a non-negative integer (JSON `v[key].as_u64()`).
    pub fn u64_at(&self, key: &str) -> (r: Option<u64>)
        ensures
            r == self@.at(key@).as_u64(),
    {
        match self.get(key) {
            Some(JsonValue::Number(JsonNumber::PosInt(n))) => Some(*n),
            _ => None,
        }
    }

    /// The member `key` when it is a boolean (JSON `v[key].as_bool()`).
    pub fn bool_at(&self, key: &str) -> (r: Option<bool>)
        ensures
            r == self@.at(key@).as_bool(),
    {
        match self.get(key) {
            Some(JsonValue::Bool(b)) => Some(*b),
            _ => None,
        }
    }

    /// A JSON string holding the characters of `s`.
    pub fn text(s: &str) -> (r: JsonValue)
        ensures
            r@ == Json::Str(s@),
    {
        JsonValue::String(String::from_str(s))
    }

    /// An object with no members.
    pub fn object0() -> (r: JsonValue)
        ensures
            r@ == Json::Object(Seq::empty()),
    {
        let r = JsonValue::Object(Vec::new());
        assert(r@->Object_0 =~= Seq::<(Seq<char>, Json)>::empty());
        r
    }

    /// An object with one member.
    pub fn object1(k1: &str, v1: JsonValue) -> (r: JsonValue)
        ensures
            r@ == Json::Object(seq![(k1@, v1@)]),
    {
        let ghost g1 = v1@;
        let r = JsonValue::Object(vec![(String::from_str(k1), v1)]);
        assert(r@->Object_0 =~= seq![(k1@, g1)]);
        r
    }

    /// An object with two members.
    pub fn object2(k1: &str, v1: JsonValue, k2: &str, v2: JsonValue) -> (r: JsonValue)
        ensures
            r@ == Json::Object(seq![(k1@, v1@), (k2@, v2@)]),
    {
        let ghost g1 = v1@;
        let ghost g2 = v2@;
        let r = JsonValue::Object(vec![(String::from_str(k1), v1), (String::from_str(k2), v2)]);
        assert(r@->Object_0 =~= seq![(k1@, g1), (k2@, g2)]);
        r
    }

    /// An object with three members.
    pub fn object3(k1: &str, v1: JsonValue, k2: &str, v2: JsonValue, k3: &str, v3: JsonValue) -> (r:
        JsonValue)
        ensures
            r@ == Json::Object(seq![(k1@, v1@), (k2@, v2@), (k3@, v3@)]),
    {
        let ghost g1 = v1@;
        let ghost g2 = v2@;
        let ghost g3 = v3@;
        let r = JsonValue::Object(
            vec![(String::from_str(k1), v1), (String::from_str(k2), v2), (String::from_str(k3), v3)],
        );
        assert(r@->Object_0 =~= seq![(k1@, g1), (k2@, g2), (k3@, g3)]);
        r
    }

    /// An array with one element.
    pub fn array1(v1: JsonValue) -> (r: JsonValue)
        ensures
            r@ == Json::Array(seq![v1@]),
    {
        let ghost g1 = v1@;
        let r = JsonValue::Array(vec![v1]);
        assert(r@->Array_0 =~= seq![g1]);
        r
    }

    /// An array of the given elements, in order.
    pub fn array(items: Vec<JsonValue>) -> (r: JsonValue)
        ensures
            r@ == Json::Array(items@.map_values(|x: JsonValue| x@)),
    {
        let ghost g = items@.map_values(|x: JsonValue| x@);
        let r = JsonValue::Array(items);
        assert(r@->Array_0 =~= g);
        r
    }
}

} // verus!
