//! JSON values.
//!
//! [`JsonValue`] holds what the library reads of a JSON document as plain
//! values; `serde_json` turns text into documents and documents into text.

use vstd::prelude::*;
use vstd::string::*;

use crate::key_map::{ascending, precedes};
use crate::text;

verus! {

/// A number in a JSON document.
///
/// Integers are held as such; any other number is carried through unread.
#[derive(Debug, PartialEq)]
pub enum JsonNumber {
    PosInt(u64),
    NegInt(i64),
    Float(serde_json::Number),
}

/// A JSON document.
///
/// The members of an object stand in the order in which they were written down.
#[derive(Debug, PartialEq)]
pub enum JsonValue {
    Null,
    Bool(bool),
    Number(JsonNumber),
    String(String),
    Array(Vec<JsonValue>),
    Object(Vec<(String, JsonValue)>),
}

/// The mathematical model of a [`JsonValue`].
pub enum Json {
    Null,
    Bool(bool),
    Number(JsonNumber),
    Str(Seq<char>),
    Array(Seq<Json>),
    Object(Seq<(Seq<char>, Json)>),
}

impl JsonValue {
    pub open spec fn view(&self) -> Json
        decreases self,
    {
        match self {
            JsonValue::Null => Json::Null,
            JsonValue::Bool(b) => Json::Bool(*b),
            JsonValue::Number(n) => Json::Number(*n),
            JsonValue::String(s) => Json::Str(s@),
            JsonValue::Array(items) => Json::Array(
                Seq::new(
                    items@.len(),
                    |i: int| if 0 <= i < items@.len() { items@[i].view() } else { Json::Null },
                ),
            ),
            JsonValue::Object(members) => Json::Object(
                Seq::new(
                    members@.len(),
                    |i: int|
                        if 0 <= i < members@.len() {
                            (members@[i].0@, members@[i].1.view())
                        } else {
                            (Seq::empty(), Json::Null)
                        },
                ),
            ),
        }
    }
}

/// The type of JSON documents of `serde_json`.
#[verifier::external_type_specification]
#[verifier::external_body]
pub struct ExValue(serde_json::Value);

/// The type of JSON numbers of `serde_json`.
#[verifier::external_type_specification]
#[verifier::external_body]
pub struct ExNumber(serde_json::Number);

/// What a document of `serde_json` holds.
pub uninterp spec fn value_contents(value: serde_json::Value) -> Json;

/// What `serde_json::from_str` makes of a text: a document or the message of an error.
pub uninterp spec fn json_parse(text: Seq<char>) -> Result<Json, Seq<char>>;

/// How `Number::as_u64` and `Number::as_i64` read a number of `serde_json`.
pub uninterp spec fn number_kind(number: serde_json::Number) -> JsonNumber;

/// One layer of a document of `serde_json`.
enum ValueParts {
    Null,
    Bool(bool),
    Number(Option<u64>, Option<i64>, serde_json::Number),
    String(String),
    Array(Vec<serde_json::Value>),
    Object(Vec<(String, serde_json::Value)>),
}

spec fn number_of(
    unsigned: Option<u64>,
    signed: Option<i64>,
    number: serde_json::Number,
) -> JsonNumber {
    match (unsigned, signed) {
        (Some(u), _) => JsonNumber::PosInt(u),
        (None, Some(i)) => JsonNumber::NegInt(i),
        (None, None) => JsonNumber::Float(number),
    }
}

spec fn parts_contents(parts: ValueParts) -> Json {
    match parts {
        ValueParts::Null => Json::Null,
        ValueParts::Bool(b) => Json::Bool(b),
        ValueParts::Number(u, i, n) => Json::Number(number_of(u, i, n)),
        ValueParts::String(s) => Json::Str(s@),
        ValueParts::Array(items) => Json::Array(
            items@.map_values(|v: serde_json::Value| value_contents(v)),
        ),
        ValueParts::Object(members) => Json::Object(members_contents(members@)),
    }
}

spec fn parts_in_order(parts: ValueParts) -> bool {
    match parts {
        ValueParts::Number(u, i, _) => u is None && i is Some ==> i->0 < 0,
        ValueParts::Object(members) => ascending(keys_of(members_contents(members@))),
        _ => true,
    }
}

/// The variants of `serde_json::Value`, taken apart: what the value holds is what the parts
/// hold. The members of an object come in ascending order of their keys, as its map keeps
/// them. `Number::as_u64` reads the integers that fit in `u64`, and `Number::as_i64` those that
/// fit in `i64`; so a number that only the second can read is negative.
#[verifier::external_body]
fn value_parts(value: serde_json::Value) -> (parts: ValueParts)
    ensures
        value_contents(value) == parts_contents(parts),
        parts_in_order(parts),
        (parts matches ValueParts::Number(u, i, n) ==> number_of(u, i, n) == number_kind(n)),
{
    match value {
        serde_json::Value::Null => ValueParts::Null,
        serde_json::Value::Bool(b) => ValueParts::Bool(b),
        serde_json::Value::Number(n) => ValueParts::Number(n.as_u64(), n.as_i64(), n),
        serde_json::Value::String(s) => ValueParts::String(s),
        serde_json::Value::Array(items) => ValueParts::Array(items),
        serde_json::Value::Object(members) => ValueParts::Object(members.into_iter().collect()),
    }
}

/// `serde_json::from_str` for a `serde_json::Value`: the document or the message of the error,
/// each a function of the text.
#[verifier::external_body]
fn parse_value(text: &str) -> (result: Result<serde_json::Value, String>)
    ensures
        match result {
            Ok(value) => json_parse(text@) == Ok::<Json, Seq<char>>(value_contents(value)),
            Err(message) => json_parse(text@) == Err::<Json, Seq<char>>(message@),
        },
{
    serde_json::from_str::<serde_json::Value>(text).map_err(|e| e.to_string())
}

/// The document of a `serde_json::Value`.
pub fn from_value(value: serde_json::Value) -> (json: JsonValue)
    ensures
        json@ == value_contents(value),
        is_plain(json@),
    decreases value_contents(value),
{
    match value_parts(value) {
        ValueParts::Null => JsonValue::Null,
        ValueParts::Bool(b) => JsonValue::Bool(b),
        ValueParts::Number(u, i, n) => JsonValue::Number(match (u, i) {
            (Some(u), _) => JsonNumber::PosInt(u),
            (None, Some(i)) => JsonNumber::NegInt(i),
            (None, None) => JsonNumber::Float(n),
        }),
        ValueParts::String(s) => JsonValue::String(s),
        ValueParts::Array(items) => {
            let mut out: Vec<JsonValue> = Vec::new();
            let ghost want = value_contents(value);
            for item in it: items
                invariant
                    it.seq() == items@,
                    want == Json::Array(
                        items@.map_values(|v: serde_json::Value| value_contents(v)),
                    ),
                    want == value_contents(value),
                    out@.len() == it.index(),
                    forall|j: int| 0 <= j < it.index() ==> (#[trigger] out@[j])@ == value_contents(
                        items@[j],
                    ) && is_plain(out@[j]@),
            {
                proof {
                    let s = want->Array_0;
                    assert(s[it.index() as int] == value_contents(item));
                    assert(decreases_to!(want => s[it.index() as int]));
                }
                out.push(from_value(item));
            }
            let json = JsonValue::Array(out);
            proof {
                assert(json@->Array_0 =~= want->Array_0);
                assert forall|j: int| 0 <= j < json@->Array_0.len() implies is_plain(
                    #[trigger] json@->Array_0[j],
                ) by {
                    assert(json@->Array_0[j] == out@[j]@);
                }
            }
            json
        },
        ValueParts::Object(members) => {
            let mut out: Vec<(String, JsonValue)> = Vec::new();
            let ghost want = value_contents(value);
            for member in it: members
                invariant
                    it.seq() == members@,
                    want == Json::Object(members_contents(members@)),
                    want == value_contents(value),
                    out@.len() == it.index(),
                    forall|j: int| 0 <= j < it.index() ==> (#[trigger] out@[j]).0@ == members@[j].0@
                        && out@[j].1@ == value_contents(members@[j].1) && is_plain(out@[j].1@),
            {
                proof {
                    let s = want->Object_0;
                    let pair = s[it.index() as int];
                    assert(pair == (member.0@, value_contents(member.1)));
                    assert(decreases_to!(want => pair));
                    assert(decreases_to!(pair => pair.1));
                }
                out.push((member.0, from_value(member.1)));
            }
            let json = JsonValue::Object(out);
            proof {
                assert(json@->Object_0 =~= want->Object_0);
                assert forall|j: int| 0 <= j < json@->Object_0.len() implies is_plain(
                    (#[trigger] json@->Object_0[j]).1,
                ) by {
                    assert(json@->Object_0[j] == (out@[j].0@, out@[j].1@));
                }
            }
            json
        },
    }
}

/// Parses a JSON text.
pub fn parse(text: &str) -> (result: Result<JsonValue, String>)
    ensures
        match result {
            Ok(value) => json_parse(text@) == Ok::<Json, Seq<char>>(value@) && is_plain(value@),
            Err(message) => json_parse(text@) == Err::<Json, Seq<char>>(message@),
        },
{
    match parse_value(text) {
        Ok(value) => Ok(from_value(value)),
        Err(message) => Err(message),
    }
}

// ---------------------------------------------------------------------------
// Reading
// ---------------------------------------------------------------------------

/// The value of the first member with the given key.
pub open spec fn first_member(members: Seq<(Seq<char>, Json)>, key: Seq<char>) -> Option<Json>
    decreases members.len(),
{
    if members.len() == 0 {
        None
    } else if members[0].0 == key {
        Some(members[0].1)
    } else {
        first_member(members.drop_first(), key)
    }
}

impl Json {
    /// The member of an object with the given key.
    pub open spec fn member(self, key: Seq<char>) -> Option<Json> {
        match self {
            Json::Object(members) => first_member(members, key),
            _ => None,
        }
    }

    /// The characters of a string.
    pub open spec fn as_str(self) -> Option<Seq<char>> {
        match self {
            Json::Str(s) => Some(s),
            _ => None,
        }
    }

    /// The member of an object with the given key, if it is a string.
    pub open spec fn text(self, key: Seq<char>) -> Option<Seq<char>> {
        match self.member(key) {
            Some(value) => value.as_str(),
            None => None,
        }
    }

    /// A number, if it is an integer that fits in `u64`.
    pub open spec fn as_u64(self) -> Option<u64> {
        match self {
            Json::Number(JsonNumber::PosInt(n)) => Some(n),
            _ => None,
        }
    }

    /// A number, if it is an integer that fits in `i64`.
    pub open spec fn as_i64(self) -> Option<i64> {
        match self {
            Json::Number(JsonNumber::PosInt(n)) => if n <= i64::MAX {
                Some(n as i64)
            } else {
                None
            },
            Json::Number(JsonNumber::NegInt(n)) => Some(n),
            _ => None,
        }
    }

    /// The items of an array.
    pub open spec fn items(self) -> Option<Seq<Json>> {
        match self {
            Json::Array(items) => Some(items),
            _ => None,
        }
    }
}

/// The models of the members of an object.
pub open spec fn members_view(members: Seq<(String, JsonValue)>) -> Seq<(Seq<char>, Json)> {
    members.map_values(|m: (String, JsonValue)| (m.0@, m.1@))
}

/// The models of the items of an array.
pub open spec fn items_view(items: Seq<JsonValue>) -> Seq<Json> {
    items.map_values(|v: JsonValue| v@)
}

proof fn lemma_view(value: JsonValue)
    ensures
        value matches JsonValue::Object(members) ==> value@ == Json::Object(members_view(members@)),
        value matches JsonValue::Array(items) ==> value@ == Json::Array(items_view(items@)),
{
    match value {
        JsonValue::Object(members) => {
            assert(value@->Object_0 =~= members_view(members@));
        },
        JsonValue::Array(items) => {
            assert(value@->Array_0 =~= items_view(items@));
        },
        _ => {},
    }
}

/// The model of an optional string.
pub open spec fn optional_text(s: Option<String>) -> Option<Seq<char>> {
    match s {
        Some(s) => Some(s@),
        None => None,
    }
}

impl JsonValue {
    /// The member of an object with the given key.
    pub fn get(&self, key: &str) -> (r: Option<&JsonValue>)
        ensures
            match r {
                Some(v) => self@.member(key@) == Some(v@),
                None => self@.member(key@) is None,
            },
    {
        proof {
            lemma_view(*self);
        }
        match self {
            JsonValue::Object(members) => {
                let ghost all = members_view(members@);
                assert(all.skip(0) =~= all);
                for i in 0..members.len()
                    invariant
                        all == members_view(members@),
                        self@ == Json::Object(all),
                        first_member(all, key@) == first_member(all.skip(i as int), key@),
                {
                    assert(all.skip(i as int)[0] == (members@[i as int].0@, members@[i as int].1@));
                    assert(all.skip(i as int).drop_first() =~= all.skip(i + 1));
                    if text::same(members[i].0.as_str(), key) {
                        return Some(&members[i].1);
                    }
                }
                None
            },
            _ => None,
        }
    }

    /// The characters of a string.
    pub fn as_str(&self) -> (r: Option<&str>)
        ensures
            match r {
                Some(s) => self@.as_str() == Some(s@),
                None => self@.as_str() is None,
            },
    {
        match self {
            JsonValue::String(s) => Some(s.as_str()),
            _ => None,
        }
    }

    /// The member of an object with the given key, if it is a string.
    pub fn text(&self, key: &str) -> (r: Option<String>)
        ensures
            optional_text(r) == self@.text(key@),
    {
        match self.get(key) {
            Some(value) => match value.as_str() {
                Some(s) => Some(s.to_owned()),
                None => None,
            },
            None => None,
        }
    }

    /// A number, if it is an integer that fits in `u64`.
    pub fn as_u64(&self) -> (r: Option<u64>)
        ensures
            r == self@.as_u64(),
    {
        match self {
            JsonValue::Number(JsonNumber::PosInt(n)) => Some(*n),
            _ => None,
        }
    }

    /// A number, if it is an integer that fits in `i64`.
    pub fn as_i64(&self) -> (r: Option<i64>)
        ensures
            r == self@.as_i64(),
    {
        match self {
            JsonValue::Number(JsonNumber::PosInt(n)) => if *n <= i64::MAX as u64 {
                Some(*n as i64)
            } else {
                None
            },
            JsonValue::Number(JsonNumber::NegInt(n)) => Some(*n),
            _ => None,
        }
    }

    /// Whether the value is `null`.
    pub fn is_null(&self) -> (r: bool)
        ensures
            r == (self@ is Null),
    {
        match self {
            JsonValue::Null => true,
            _ => false,
        }
    }

    /// The items of an array.
    pub fn as_array(&self) -> (r: Option<&Vec<JsonValue>>)
        ensures
            match r {
                Some(items) => self@.items() == Some(items_view(items@)),
                None => self@.items() is None,
            },
    {
        proof {
            lemma_view(*self);
        }
        match self {
            JsonValue::Array(items) => Some(items),
            _ => None,
        }
    }

    /// The member of an object with the given key, taken out of it.
    pub fn into_member(self, key: &str) -> (r: Option<JsonValue>)
        ensures
            match r {
                Some(v) => self@.member(key@) == Some(v@),
                None => self@.member(key@) is None,
            },
    {
        proof {
            lemma_view(self);
        }
        match self {
            JsonValue::Object(members) => {
                let ghost all = members_view(members@);
                assert(all.skip(0) =~= all);
                for member in it: members
                    invariant
                        it.seq() == members@,
                        all == members_view(members@),
                        self@ == Json::Object(all),
                        first_member(all, key@) == first_member(all.skip(it.index() as int), key@),
                {
                    assert(all.skip(it.index() as int)[0] == (member.0@, member.1@));
                    assert(all.skip(it.index() as int).drop_first() =~= all.skip(it.index() + 1));
                    if text::same(member.0.as_str(), key) {
                        return Some(member.1);
                    }
                }
                None
            },
            _ => None,
        }
    }
}

// ---------------------------------------------------------------------------
// Building
// ---------------------------------------------------------------------------

/// A member of an object.
pub fn member(key: &str, value: JsonValue) -> (m: (String, JsonValue))
    ensures
        m.0@ == key@,
        m.1@ == value@,
{
    (key.to_owned(), value)
}

/// An object with the given members.
pub fn object(members: Vec<(String, JsonValue)>) -> (r: JsonValue)
    ensures
        r@ == Json::Object(members_view(members@)),
{
    let r = JsonValue::Object(members);
    proof {
        lemma_view(r);
    }
    r
}

/// An array of the given items.
pub fn array(items: Vec<JsonValue>) -> (r: JsonValue)
    ensures
        r@ == Json::Array(items_view(items@)),
{
    let r = JsonValue::Array(items);
    proof {
        lemma_view(r);
    }
    r
}

/// A string.
pub fn string(s: &str) -> (r: JsonValue)
    ensures
        r@ == Json::Str(s@),
{
    JsonValue::String(s.to_owned())
}

/// A number that is not negative.
pub fn unsigned(n: u64) -> (r: JsonValue)
    ensures
        r@ == Json::Number(JsonNumber::PosInt(n)),
{
    JsonValue::Number(JsonNumber::PosInt(n))
}

/// The members that there are, of some that there may be.
pub open spec fn present(members: Seq<(Seq<char>, Option<Json>)>) -> Seq<(Seq<char>, Json)>
    decreases members.len(),
{
    if members.len() == 0 {
        Seq::empty()
    } else {
        let rest = present(members.drop_last());
        match members.last().1 {
            Some(value) => rest.push((members.last().0, value)),
            None => rest,
        }
    }
}

/// The models of members that there may be.
pub open spec fn optional_members(members: Seq<(String, Option<JsonValue>)>) -> Seq<
    (Seq<char>, Option<Json>),
> {
    members.map_values(
        |m: (String, Option<JsonValue>)|
            (
                m.0@,
                match m.1 {
                    Some(value) => Some(value@),
                    None => None,
                },
            ),
    )
}

/// A member that there may be.
pub fn optional_member(key: &str, value: Option<JsonValue>) -> (m: (String, Option<JsonValue>))
    ensures
        m.0@ == key@,
        m.1 == value,
{
    (key.to_owned(), value)
}

/// An object with those of the members that there are.
pub fn object_of(members: Vec<(String, Option<JsonValue>)>) -> (r: JsonValue)
    ensures
        r@ == Json::Object(present(optional_members(members@))),
{
    let ghost all = optional_members(members@);
    let mut out: Vec<(String, JsonValue)> = Vec::new();
    assert(all.take(0) =~= Seq::empty());
    for member in it: members
        invariant
            it.seq() == members@,
            all == optional_members(members@),
            members_view(out@) =~= present(all.take(it.index() as int)),
    {
        let ghost prior = out@;
        proof {
            let n = it.index() as int;
            assert(all.take(n + 1).drop_last() =~= all.take(n));
            assert(all.take(n + 1).last() == all[n]);
        }
        match member.1 {
            Some(value) => {
                out.push((member.0, value));
                assert(members_view(out@) =~= members_view(prior).push((member.0@, value@)));
            },
            None => {},
        }
    }
    assert(all.take(all.len() as int) =~= all);
    object(out)
}

/// The document of an optional string: `null` if there is none.
pub open spec fn nullable(s: Option<Seq<char>>) -> Json {
    match s {
        Some(s) => Json::Str(s),
        None => Json::Null,
    }
}

/// The document of an optional string: `null` if there is none.
pub fn string_or_null(s: &Option<String>) -> (r: JsonValue)
    ensures
        r@ == nullable(optional_text(*s)),
{
    match s {
        Some(s) => string(s.as_str()),
        None => JsonValue::Null,
    }
}

/// The array of the given strings.
pub open spec fn strings_json(strings: Seq<Seq<char>>) -> Json {
    Json::Array(strings.map_values(|s: Seq<char>| Json::Str(s)))
}

/// The characters that each of the strings holds.
pub open spec fn texts(strings: Seq<String>) -> Seq<Seq<char>> {
    strings.map_values(|s: String| s@)
}

/// The array of the given strings.
pub fn strings(items: &Vec<String>) -> (r: JsonValue)
    ensures
        r@ == strings_json(texts(items@)),
{
    let mut out: Vec<JsonValue> = Vec::new();
    for i in 0..items.len()
        invariant
            out@.len() == i,
            forall|j: int| 0 <= j < i ==> (#[trigger] out@[j])@ == Json::Str(items@[j]@),
    {
        out.push(string(items[i].as_str()));
    }
    let r = array(out);
    assert(items_view(out@) =~= texts(items@).map_values(|s: Seq<char>| Json::Str(s)));
    r
}

/// The array of the given bytes, as numbers.
pub open spec fn bytes_json(bytes: Seq<u8>) -> Json {
    Json::Array(bytes.map_values(|b: u8| Json::Number(JsonNumber::PosInt(b as u64))))
}

/// The array of the given bytes, as numbers.
pub fn bytes(items: &Vec<u8>) -> (r: JsonValue)
    ensures
        r@ == bytes_json(items@),
        is_plain(r@),
{
    let mut out: Vec<JsonValue> = Vec::new();
    for i in 0..items.len()
        invariant
            out@.len() == i,
            forall|j: int|
                0 <= j < i ==> (#[trigger] out@[j])@ == Json::Number(
                    JsonNumber::PosInt(items@[j] as u64),
                ),
    {
        out.push(unsigned(items[i] as u64));
    }
    let r = array(out);
    proof {
        assert(r@->Array_0 =~= bytes_json(items@)->Array_0);
        lemma_plain_bytes(items@);
    }
    r
}

// ---------------------------------------------------------------------------
// Writing
// ---------------------------------------------------------------------------

/// The text that `serde_json` writes for a document.
pub uninterp spec fn json_text(value: Json) -> Seq<char>;

/// What one layer of a document of `serde_json` is made of.
enum NewParts {
    Null,
    Bool(bool),
    PosInt(u64),
    NegInt(i64),
    Float(serde_json::Number),
    String(String),
    Array(Vec<serde_json::Value>),
    Object(Vec<(String, serde_json::Value)>),
}

/// The keys of the members.
pub open spec fn keys_of(members: Seq<(Seq<char>, Json)>) -> Seq<Seq<char>> {
    members.map_values(|m: (Seq<char>, Json)| m.0)
}

/// The contents of members of `serde_json`.
spec fn members_contents(members: Seq<(String, serde_json::Value)>) -> Seq<(Seq<char>, Json)> {
    members.map_values(|m: (String, serde_json::Value)| (m.0@, value_contents(m.1)))
}

spec fn is_made_of(contents: Json, parts: NewParts) -> bool {
    match parts {
        NewParts::Null => contents == Json::Null,
        NewParts::Bool(b) => contents == Json::Bool(b),
        NewParts::PosInt(n) => contents == Json::Number(JsonNumber::PosInt(n)),
        NewParts::NegInt(n) => n < 0 ==> contents == Json::Number(JsonNumber::NegInt(n)),
        NewParts::Float(n) => contents == Json::Number(number_kind(n)),
        NewParts::String(s) => contents == Json::Str(s@),
        NewParts::Array(items) => contents == Json::Array(
            items@.map_values(|v: serde_json::Value| value_contents(v)),
        ),
        NewParts::Object(members) => ascending(keys_of(members_contents(members@)))
            ==> contents == Json::Object(members_contents(members@)),
    }
}

/// The variants of `serde_json::Value`: the value holds what it was made of. An object's
/// members are kept in ascending order of their keys, so of an object this is stated where
/// they stand in that order.
#[verifier::external_body]
fn new_value(parts: NewParts) -> (value: serde_json::Value)
    ensures
        is_made_of(value_contents(value), parts),
{
    match parts {
        NewParts::Null => serde_json::Value::Null,
        NewParts::Bool(b) => serde_json::Value::Bool(b),
        NewParts::PosInt(n) => serde_json::Value::Number(n.into()),
        NewParts::NegInt(n) => serde_json::Value::Number(n.into()),
        NewParts::Float(n) => serde_json::Value::Number(n),
        NewParts::String(s) => serde_json::Value::String(s),
        NewParts::Array(items) => serde_json::Value::Array(items),
        NewParts::Object(members) => serde_json::Value::Object(members.into_iter().collect()),
    }
}

/// `Value::to_string` of `serde_json`: the text is a function of what the value holds.
#[verifier::external_body]
fn value_text(value: serde_json::Value) -> (s: String)
    ensures
        s@ == json_text(value_contents(value)),
{
    value.to_string()
}

/// Whether a document is written down as `serde_json` holds it: the members of every object
/// stand in ascending order of their keys, and every number is held as it is read.
pub open spec fn is_plain(value: Json) -> bool
    decreases value,
{
    match value {
        Json::Null => true,
        Json::Bool(_) => true,
        Json::Number(JsonNumber::PosInt(_)) => true,
        Json::Number(JsonNumber::NegInt(n)) => n < 0,
        Json::Number(JsonNumber::Float(n)) => number_kind(n) == JsonNumber::Float(n),
        Json::Str(_) => true,
        Json::Array(items) => forall|i: int| 0 <= i < items.len() ==> is_plain(#[trigger] items[i]),
        Json::Object(members) => ascending(keys_of(members)) && forall|i: int|
            0 <= i < members.len() ==> is_plain((#[trigger] members[i]).1),
    }
}

impl JsonValue {
    /// The document as one of `serde_json`.
    pub fn into_value(self) -> (value: serde_json::Value)
        ensures
            is_plain(self@) ==> value_contents(value) == self@,
        decreases self,
    {
        proof {
            lemma_view(self);
        }
        match self {
            JsonValue::Null => new_value(NewParts::Null),
            JsonValue::Bool(b) => new_value(NewParts::Bool(b)),
            JsonValue::Number(JsonNumber::PosInt(n)) => new_value(NewParts::PosInt(n)),
            JsonValue::Number(JsonNumber::NegInt(n)) => new_value(NewParts::NegInt(n)),
            JsonValue::Number(JsonNumber::Float(n)) => new_value(NewParts::Float(n)),
            JsonValue::String(s) => new_value(NewParts::String(s)),
            JsonValue::Array(items) => {
                let mut out: Vec<serde_json::Value> = Vec::new();
                for item in it: items
                    invariant
                        it.seq() == items@,
                        self == JsonValue::Array(items),
                        out@.len() == it.index(),
                        forall|j: int| 0 <= j < it.index() ==> (is_plain(items@[j]@)
                            ==> value_contents(#[trigger] out@[j]) == items@[j]@),
                {
                    assert(decreases_to!(self => item)) by {
                        assert(decreases_to!(self => self->Array_0));
                        assert(decreases_to!(items => items@));
                        assert(decreases_to!(items@ => items@[it.index() as int]));
                    }
                    out.push(item.into_value());
                }
                proof {
                    if is_plain(self@) {
                        assert forall|j: int| 0 <= j < items@.len() implies is_plain(
                            #[trigger] items@[j]@,
                        ) by {
                            let s = self@->Array_0;
                            assert(is_plain(s[j]));
                            assert(s[j] == items@[j]@);
                        }
                        assert(out@.map_values(|v: serde_json::Value| value_contents(v))
                            =~= items_view(items@));
                    }
                }
                new_value(NewParts::Array(out))
            },
            JsonValue::Object(members) => {
                let mut out: Vec<(String, serde_json::Value)> = Vec::new();
                for member in it: members
                    invariant
                        it.seq() == members@,
                        self == JsonValue::Object(members),
                        out@.len() == it.index(),
                        forall|j: int| 0 <= j < it.index() ==> (#[trigger] out@[j]).0@
                            == members@[j].0@ && (is_plain(members@[j].1@) ==> value_contents(
                            out@[j].1,
                        ) == members@[j].1@),
                {
                    assert(decreases_to!(self => member.1)) by {
                        assert(decreases_to!(self => self->Object_0));
                        assert(decreases_to!(members => members@));
                        assert(decreases_to!(members@ => members@[it.index() as int]));
                        assert(decreases_to!(member => member.1));
                    }
                    out.push((member.0, member.1.into_value()));
                }
                proof {
                    if is_plain(self@) {
                        assert forall|j: int| 0 <= j < members@.len() implies is_plain(
                            (#[trigger] members@[j]).1@,
                        ) by {
                            assert(members_view(members@)[j] == (members@[j].0@, members@[j].1@));
                        }
                        assert(members_contents(out@) =~= members_view(members@));
                    }
                }
                new_value(NewParts::Object(out))
            },
        }
    }

    /// The text of the document.
    pub fn into_text(self) -> (s: String)
        ensures
            is_plain(self@) ==> s@ == json_text(self@),
    {
        value_text(self.into_value())
    }
}

// ---------------------------------------------------------------------------
// Laws
// ---------------------------------------------------------------------------

/// What has no parts is written down as it is held.
pub proof fn lemma_plain_leaf(value: Json)
    requires
        value is Null || value is Bool || value is Str || (value matches Json::Number(n)
            && n is PosInt),
    ensures
        is_plain(value),
{
}

/// An object is written down as it is held if its members are, in ascending order of their
/// keys.
pub proof fn lemma_plain_object(members: Seq<(Seq<char>, Json)>)
    requires
        ascending(keys_of(members)),
        forall|i: int| 0 <= i < members.len() ==> is_plain((#[trigger] members[i]).1),
    ensures
        is_plain(Json::Object(members)),
{
}

/// An array is written down as it is held if its items are.
pub proof fn lemma_plain_array(items: Seq<Json>)
    requires
        forall|i: int| 0 <= i < items.len() ==> is_plain(#[trigger] items[i]),
    ensures
        is_plain(Json::Array(items)),
{
}

/// An array of strings is written down as it is held.
pub proof fn lemma_plain_strings(strings: Seq<Seq<char>>)
    ensures
        is_plain(strings_json(strings)),
{
    let items = strings.map_values(|s: Seq<char>| Json::Str(s));
    assert forall|i: int| 0 <= i < items.len() implies is_plain(#[trigger] items[i]) by {
        lemma_plain_leaf(items[i]);
    }
    lemma_plain_array(items);
}

/// An array of bytes is written down as it is held.
pub proof fn lemma_plain_bytes(bytes: Seq<u8>)
    ensures
        is_plain(bytes_json(bytes)),
{
    let items = bytes_json(bytes)->Array_0;
    assert forall|i: int| 0 <= i < items.len() implies is_plain(#[trigger] items[i]) by {
        lemma_plain_leaf(items[i]);
    }
    lemma_plain_array(items);
}

/// The keys of members that there may be.
pub open spec fn optional_keys(members: Seq<(Seq<char>, Option<Json>)>) -> Seq<Seq<char>> {
    members.map_values(|m: (Seq<char>, Option<Json>)| m.0)
}

proof fn lemma_present_is_among(members: Seq<(Seq<char>, Option<Json>)>, i: int)
    requires
        0 <= i < present(members).len(),
    ensures
        exists|j: int|
            0 <= j < members.len() && (#[trigger] members[j]).0 == present(members)[i].0
                && members[j].1 == Some(present(members)[i].1),
    decreases members.len(),
{
    let rest = members.drop_last();
    if i < present(rest).len() {
        lemma_present_is_among(rest, i);
        let j = choose|j: int|
            0 <= j < rest.len() && (#[trigger] rest[j]).0 == present(rest)[i].0 && rest[j].1 == Some(
                present(rest)[i].1,
            );
        assert(members[j] == rest[j]);
    } else {
        assert(members[members.len() - 1] == members.last());
    }
}

proof fn lemma_present_ascends(members: Seq<(Seq<char>, Option<Json>)>)
    requires
        ascending(optional_keys(members)),
    ensures
        ascending(keys_of(present(members))),
    decreases members.len(),
{
    if members.len() > 0 {
        let rest = members.drop_last();
        let all = optional_keys(members);
        assert forall|i: int, j: int| 0 <= i < j < optional_keys(rest).len() implies precedes(
            #[trigger] optional_keys(rest)[i],
            #[trigger] optional_keys(rest)[j],
        ) by {
            assert(all[i] == optional_keys(rest)[i]);
            assert(all[j] == optional_keys(rest)[j]);
        }
        lemma_present_ascends(rest);
        let before = keys_of(present(rest));
        let after = keys_of(present(members));
        assert forall|i: int, j: int| 0 <= i < j < after.len() implies precedes(
            #[trigger] after[i],
            #[trigger] after[j],
        ) by {
            assert(after[i] == before[i]);
            if j < before.len() {
                assert(after[j] == before[j]);
            } else {
                lemma_present_is_among(rest, i);
                let k = choose|k: int|
                    0 <= k < rest.len() && (#[trigger] rest[k]).0 == present(rest)[i].0
                        && rest[k].1 == Some(present(rest)[i].1);
                assert(all[k] == rest[k].0);
                assert(all[members.len() - 1] == members.last().0);
            }
        }
    }
}

/// An object with those of the members that there are is written down as it is held if they
/// are, in ascending order of their keys.
pub proof fn lemma_plain_present(members: Seq<(Seq<char>, Option<Json>)>)
    requires
        ascending(optional_keys(members)),
        forall|i: int|
            0 <= i < members.len() && (#[trigger] members[i]).1 is Some ==> is_plain(
                members[i].1->0,
            ),
    ensures
        is_plain(Json::Object(present(members))),
{
    lemma_present_ascends(members);
    let there = present(members);
    assert forall|i: int| 0 <= i < there.len() implies is_plain((#[trigger] there[i]).1) by {
        lemma_present_is_among(members, i);
    }
    lemma_plain_object(there);
}

/// Whether a document is nested no deeper than `limit`, and all its numbers are integers.
pub open spec fn is_shallow(value: Json, limit: nat) -> bool
    decreases value,
{
    match value {
        Json::Number(n) => !(n is Float),
        Json::Array(items) => limit > 0 && forall|i: int|
            0 <= i < items.len() ==> is_shallow(#[trigger] items[i], (limit - 1) as nat),
        Json::Object(members) => limit > 0 && forall|i: int|
            0 <= i < members.len() ==> is_shallow((#[trigger] members[i]).1, (limit - 1) as nat),
        _ => true,
    }
}

/// An object is nested one deeper than its members.
pub proof fn lemma_shallow_object(members: Seq<(Seq<char>, Json)>, limit: nat)
    requires
        forall|i: int| 0 <= i < members.len() ==> is_shallow((#[trigger] members[i]).1, limit),
    ensures
        is_shallow(Json::Object(members), limit + 1),
{
}

/// An array is nested one deeper than its items.
pub proof fn lemma_shallow_array(items: Seq<Json>, limit: nat)
    requires
        forall|i: int| 0 <= i < items.len() ==> is_shallow(#[trigger] items[i], limit),
    ensures
        is_shallow(Json::Array(items), limit + 1),
{
}

/// An object with those of the members that there are is nested one deeper than they.
pub proof fn lemma_shallow_present(members: Seq<(Seq<char>, Option<Json>)>, limit: nat)
    requires
        forall|i: int|
            0 <= i < members.len() && (#[trigger] members[i]).1 is Some ==> is_shallow(
                members[i].1->0,
                limit,
            ),
    ensures
        is_shallow(Json::Object(present(members)), limit + 1),
{
    let there = present(members);
    assert forall|i: int| 0 <= i < there.len() implies is_shallow((#[trigger] there[i]).1, limit) by {
        lemma_present_is_among(members, i);
    }
    lemma_shallow_object(there, limit);
}

/// What is nested no deeper than one limit is nested no deeper than a greater one.
pub proof fn lemma_shallow_more(value: Json, limit: nat, more: nat)
    requires
        is_shallow(value, limit),
        limit <= more,
    ensures
        is_shallow(value, more),
    decreases value,
{
    match value {
        Json::Array(items) => {
            assert forall|i: int| 0 <= i < items.len() implies is_shallow(
                #[trigger] items[i],
                (more - 1) as nat,
            ) by {
                lemma_shallow_more(items[i], (limit - 1) as nat, (more - 1) as nat);
            }
        },
        Json::Object(members) => {
            assert forall|i: int| 0 <= i < members.len() implies is_shallow(
                (#[trigger] members[i]).1,
                (more - 1) as nat,
            ) by {
                assert(decreases_to!(value => members));
                assert(decreases_to!(members => members[i]));
                assert(decreases_to!(members[i] => members[i].1));
                lemma_shallow_more(members[i].1, (limit - 1) as nat, (more - 1) as nat);
            }
        },
        _ => {},
    }
}

proof fn lemma_first_member_is_one(members: Seq<(Seq<char>, Json)>, key: Seq<char>)
    ensures
        first_member(members, key) matches Some(value) ==> exists|i: int|
            0 <= i < members.len() && (#[trigger] members[i]) == (key, value),
    decreases members.len(),
{
    if members.len() > 0 && members[0].0 != key {
        let rest = members.drop_first();
        lemma_first_member_is_one(rest, key);
        if first_member(rest, key) is Some {
            let value = first_member(rest, key)->0;
            let i = choose|i: int| 0 <= i < rest.len() && (#[trigger] rest[i]) == (key, value);
            assert(members[i + 1] == (key, value));
        }
    } else if members.len() > 0 {
        assert(members[0] == (key, members[0].1));
    }
}

/// A member of a document that is written down as it is held is so too.
pub proof fn lemma_plain_member(value: Json, key: Seq<char>)
    requires
        is_plain(value),
    ensures
        value.member(key) matches Some(member) ==> is_plain(member),
{
    if value is Object {
        lemma_first_member_is_one(value->Object_0, key);
    }
}

} // verus!
