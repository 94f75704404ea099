//! JSON values.

use crate::string_map;
use crate::string_map::StringMap;
use crate::text;
use vstd::prelude::*;
use vstd::string::*;

verus! {

/// A JSON number: an integer, or the bit pattern of a double.
#[derive(Debug, Clone, Copy, PartialEq, Eq, Structural)]
pub enum JsonNumber {
    /// An integer that is not negative.
    Unsigned(u64),
    /// A negative integer.
    Negative(i64),
    /// Any other number, as the bits of an IEEE 754 double.
    Double(u64),
}

/// What a JSON value is: objects are maps, arrays are sequences.
#[verifier::ext_equal]
pub enum Json {
    Null,
    Bool(bool),
    Number(JsonNumber),
    Text(Seq<char>),
    Array(Seq<Json>),
    Object(Map<Seq<char>, Json>),
}

/// A JSON value.
#[derive(Debug, PartialEq, Eq)]
pub enum JsonValue {
    Null,
    Bool(bool),
    Number(JsonNumber),
    Text(String),
    Array(Vec<JsonValue>),
    Object(StringMap<JsonValue>),
}

/// The value that `v` stands for.
pub closed spec fn json_model(v: JsonValue) -> Json
    decreases v,
{
    match v {
        JsonValue::Null => Json::Null,
        JsonValue::Bool(b) => Json::Bool(b),
        JsonValue::Number(n) => Json::Number(n),
        JsonValue::Text(s) => Json::Text(s@),
        JsonValue::Array(items) => Json::Array(
            Seq::new(
                items@.len(),
                |i: int|
                    if 0 <= i < items@.len() {
                        json_model(items@[i])
                    } else {
                        Json::Null
                    },
            ),
        ),
        JsonValue::Object(map) => Json::Object(
            Map::new(
                |k: Seq<char>| string_map::has_key(map.entries@, k),
                |k: Seq<char>|
                    if string_map::has_key(map.entries@, k) {
                        json_model(map.entries@[string_map::position(map.entries@, k)].1)
                    } else {
                        Json::Null
                    },
            ),
        ),
    }
}

impl View for JsonValue {
    type V = Json;

    open spec fn view(&self) -> Json {
        json_model(*self)
    }
}

/// The values that `items` stand for.
pub open spec fn array_model(items: Seq<JsonValue>) -> Seq<Json> {
    items.map_values(|v: JsonValue| v@)
}

/// The values that the members of `map` stand for.
pub open spec fn object_model(map: Map<Seq<char>, JsonValue>) -> Map<Seq<char>, Json> {
    map.map_values(|v: JsonValue| v@)
}

/// What each form of value stands for.
pub broadcast proof fn lemma_json_model(v: JsonValue)
    ensures
        #[trigger] json_model(v) == (match v {
            JsonValue::Null => Json::Null,
            JsonValue::Bool(b) => Json::Bool(b),
            JsonValue::Number(n) => Json::Number(n),
            JsonValue::Text(s) => Json::Text(s@),
            JsonValue::Array(items) => Json::Array(array_model(items@)),
            JsonValue::Object(map) => Json::Object(object_model(map@)),
        }),
{
    match v {
        JsonValue::Array(items) => {
            assert(json_model(v)->Array_0 =~= array_model(items@));
        },
        JsonValue::Object(map) => {
            string_map::lemma_view_is_entries(map);
            assert(json_model(v)->Object_0 =~= object_model(map@));
        },
        _ => {},
    }
}

impl Clone for JsonValue {
    fn clone(&self) -> (copy: Self)
        ensures
            copy@ == self@,
        decreases self,
    {
        broadcast use lemma_json_model;
        match self {
            JsonValue::Null => JsonValue::Null,
            JsonValue::Bool(b) => JsonValue::Bool(*b),
            JsonValue::Number(n) => JsonValue::Number(*n),
            JsonValue::Text(s) => JsonValue::Text(s.clone()),
            JsonValue::Array(items) => {
                let mut out: Vec<JsonValue> = Vec::new();
                let mut i: usize = 0;
                while i < items.len()
                    invariant
                        self matches JsonValue::Array(v) && v == items,
                        i == out@.len() <= items@.len(),
                        forall|k: int| 0 <= k < i ==> (#[trigger] out@[k])@ == items@[k]@,
                    decreases items@.len() - i,
                {
                    let item = items[i].clone();
                    out.push(item);
                    i += 1;
                }
                assert(array_model(out@) =~= array_model(items@));
                JsonValue::Array(out)
            },
            JsonValue::Object(map) => {
                proof {
                    use_type_invariant(map);
                }
                let mut entries: Vec<(String, JsonValue)> = Vec::new();
                let mut i: usize = 0;
                while i < map.entries.len()
                    invariant
                        self matches JsonValue::Object(m) && m == map,
                        i == entries@.len() <= map.entries@.len(),
                        forall|k: int|
                            0 <= k < i ==> (#[trigger] entries@[k]).0@ == map.entries@[k].0@
                                && entries@[k].1@ == map.entries@[k].1@,
                    decreases map.entries@.len() - i,
                {
                    let e = &map.entries[i];
                    let item = e.1.clone();
                    entries.push((e.0.clone(), item));
                    i += 1;
                }
                proof {
                    lemma_same_object(map.entries@, entries@);
                }
                let copy = StringMap { entries };
                proof {
                    string_map::lemma_view_is_entries(copy);
                    string_map::lemma_view_is_entries(*map);
                }
                JsonValue::Object(copy)
            },
        }
    }
}

/// `text` as a value, `null` where there is none.
pub open spec fn optional_text_model(text: Option<Seq<char>>) -> Json {
    match text {
        Some(s) => Json::Text(s),
        None => Json::Null,
    }
}

/// A list of texts as a value.
pub open spec fn text_list_model(texts: Seq<Seq<char>>) -> Json {
    Json::Array(texts.map_values(|s: Seq<char>| Json::Text(s)))
}

/// A map of texts as a value.
pub open spec fn text_map_model(texts: Map<Seq<char>, Seq<char>>) -> Json {
    Json::Object(texts.map_values(|s: Seq<char>| Json::Text(s)))
}

/// The member `key` of a value, which only an object has.
pub open spec fn member(value: Json, key: Seq<char>) -> Option<Json> {
    match value {
        Json::Object(map) => if map.contains_key(key) {
            Some(map[key])
        } else {
            None
        },
        _ => None,
    }
}

/// An optional value.
pub open spec fn optional_model(o: Option<&JsonValue>) -> Option<Json> {
    match o {
        Some(v) => Some(v@),
        None => None,
    }
}

impl JsonValue {
    /// A text.
    pub fn text(s: &str) -> (v: JsonValue)
        ensures
            v@ == Json::Text(s@),
    {
        broadcast use lemma_json_model;

        JsonValue::Text(s.to_owned())
    }

    /// A text, `null` where there is none.
    pub fn optional_text(s: Option<&str>) -> (v: JsonValue)
        ensures
            v@ == optional_text_model(text::optional_str(s)),
    {
        broadcast use lemma_json_model;

        match s {
            Some(s) => JsonValue::text(s),
            None => JsonValue::Null,
        }
    }

    /// A list of texts.
    pub fn text_list(list: &Vec<String>) -> (v: JsonValue)
        ensures
            v@ == text_list_model(text::texts(list@)),
    {
        broadcast use lemma_json_model;

        let mut items: Vec<JsonValue> = Vec::new();
        let mut i: usize = 0;
        while i < list.len()
            invariant
                i == items@.len() <= list@.len(),
                forall|k: int| 0 <= k < i ==> (#[trigger] items@[k])@ == Json::Text(list@[k]@),
            decreases list@.len() - i,
        {
            items.push(JsonValue::text(&list[i]));
            i += 1;
        }
        assert(array_model(items@) =~= text_list_model(text::texts(list@))->Array_0);
        JsonValue::Array(items)
    }

    /// A map of texts.
    pub fn text_map(map: &StringMap<String>) -> (v: JsonValue)
        ensures
            v@ == text_map_model(string_map::texts(map@)),
    {
        broadcast use lemma_json_model;

        let mut members = no_members();
        let mut i: usize = 0;
        assert(object_model(members@) =~= text_map_model(
            string_map::texts(string_map::as_map(map.entries@.take(0))),
        )->Object_0);
        proof {
            use_type_invariant(map);
            string_map::lemma_view_is_entries(*map);
        }
        while i < map.entries.len()
            invariant
                i <= map.entries@.len(),
                string_map::sorted(map.entries@),
                object_model(members@) == text_map_model(
                    string_map::texts(string_map::as_map(map.entries@.take(i as int))),
                )->Object_0,
            decreases map.entries@.len() - i,
        {
            let e = &map.entries[i];
            put(&mut members, &e.0, JsonValue::text(&e.1));
            proof {
                string_map::lemma_one_more(map.entries@, i as int);
            }
            i += 1;
            assert(object_model(members@) =~= text_map_model(
                string_map::texts(string_map::as_map(map.entries@.take(i as int))),
            )->Object_0);
        }
        assert(map.entries@.take(i as int) =~= map.entries@);
        JsonValue::Object(members)
    }

    /// The member `key`, which only an object has.
    pub fn get(&self, key: &str) -> (v: Option<&JsonValue>)
        ensures
            optional_model(v) == member(self@, key@),
    {
        broadcast use lemma_json_model;

        match self {
            JsonValue::Object(map) => map.get(key),
            _ => None,
        }
    }
}

/// An array of copies of `items`.
pub fn copy_array(items: &Vec<JsonValue>) -> (v: JsonValue)
    ensures
        v@ == Json::Array(array_model(items@)),
{
    broadcast use lemma_json_model;

    let mut out: Vec<JsonValue> = Vec::new();
    let mut i: usize = 0;
    while i < items.len()
        invariant
            i == out@.len() <= items@.len(),
            forall|k: int| 0 <= k < i ==> (#[trigger] out@[k])@ == items@[k]@,
        decreases items@.len() - i,
    {
        out.push(items[i].clone());
        i += 1;
    }
    assert(array_model(out@) =~= array_model(items@));
    JsonValue::Array(out)
}

/// Sets the member `key` of an object.
pub fn put(map: &mut StringMap<JsonValue>, key: &str, value: JsonValue)
    ensures
        object_model(final(map)@) == object_model(old(map)@).insert(key@, value@),
{
    let ghost before = map@;
    map.insert(key.to_owned(), value);
    assert(object_model(before.insert(key@, value)) =~= object_model(before).insert(
        key@,
        value@,
    ));
}

/// The members of an empty object.
pub fn no_members() -> (map: StringMap<JsonValue>)
    ensures
        object_model(map@) == Map::<Seq<char>, Json>::empty(),
{
    let map: StringMap<JsonValue> = StringMap::new();
    assert(object_model(map@) =~= Map::<Seq<char>, Json>::empty());
    map
}

/// Entries with the same keys, whose values stand for the same, make up
/// the same object.
proof fn lemma_same_object(a: Seq<(String, JsonValue)>, b: Seq<(String, JsonValue)>)
    requires
        string_map::sorted(a),
        a.len() == b.len(),
        forall|k: int|
            0 <= k < a.len() ==> (#[trigger] b[k]).0@ == a[k].0@ && b[k].1@ == a[k].1@,
    ensures
        string_map::sorted(b),
        object_model(string_map::as_map(b)) == object_model(string_map::as_map(a)),
{
    assert forall|k: Seq<char>| #[trigger] string_map::has_key(a, k) implies string_map::has_key(
        b,
        k,
    ) && b[string_map::position(b, k)].1@ == a[string_map::position(a, k)].1@ by {
        let i = string_map::position(a, k);
        assert(b[i].0@ == k);
        string_map::lemma_position(b, i);
    }
    assert forall|k: Seq<char>| #[trigger] string_map::has_key(b, k) implies string_map::has_key(
        a,
        k,
    ) by {
        assert(a[string_map::position(b, k)].0@ == k);
    }
    assert(object_model(string_map::as_map(b)) =~= object_model(string_map::as_map(a)));
}

} // verus!
