//! JSON values as the library reads and writes them.

use crate::double::{law_the_nearest_double_keeps_the_sign, nearest_double_bits, Double};
use vstd::pervasive::unreached;
use vstd::prelude::*;

verus! {

/// A JSON number: an integer where it is written as one and fits, and a double
/// otherwise.
#[derive(Debug, Clone, Copy, PartialEq, Eq, Structural)]
pub enum JsonNumber {
    Unsigned(u64),
    Negative(i64),
    Double(Double),
}

/// A JSON value.
///
/// An object is the list of its members. A member is found under the first
/// entry that has its key.
#[derive(Debug, PartialEq, Eq)]
pub enum Json {
    Null,
    Bool(bool),
    Number(JsonNumber),
    String(String),
    Array(Vec<Json>),
    Object(Vec<(String, Json)>),
}

/// The mathematical content of a JSON value.
pub enum JsonView {
    Null,
    Bool(bool),
    Number(JsonNumber),
    String(Seq<char>),
    Array(Seq<JsonView>),
    Object(Seq<(Seq<char>, JsonView)>),
}

impl View for Json {
    type V = JsonView;

    open spec fn view(&self) -> JsonView {
        json_view(*self)
    }
}

/// The content of `json`, with its strings, arrays and objects as sequences.
pub open spec fn json_view(json: Json) -> JsonView
    decreases json,
{
    match json {
        Json::Null => JsonView::Null,
        Json::Bool(b) => JsonView::Bool(b),
        Json::Number(n) => JsonView::Number(n),
        Json::String(s) => JsonView::String(s@),
        Json::Array(items) => JsonView::Array(
            Seq::new(
                items@.len(),
                |i: int|
                    if 0 <= i < items@.len() {
                        json_view(items@[i])
                    } else {
                        JsonView::Null
                    },
            ),
        ),
        Json::Object(entries) => JsonView::Object(
            Seq::new(
                entries@.len(),
                |i: int|
                    if 0 <= i < entries@.len() {
                        (entries@[i].0@, json_view(entries@[i].1))
                    } else {
                        (Seq::<char>::empty(), JsonView::Null)
                    },
            ),
        ),
    }
}

impl JsonView {
    /// The member `key` of an object; `None` where there is no such member or
    /// the value is no object.
    pub open spec fn member(self, key: Seq<char>) -> Option<JsonView> {
        match self {
            JsonView::Object(entries) => first_under(entries, key),
            _ => None,
        }
    }

    /// The items of an array; `None` for any other value.
    pub open spec fn items(self) -> Option<Seq<JsonView>> {
        match self {
            JsonView::Array(items) => Some(items),
            _ => None,
        }
    }

    /// The text of a string; `None` for any other value.
    pub open spec fn text(self) -> Option<Seq<char>> {
        match self {
            JsonView::String(text) => Some(text),
            _ => None,
        }
    }

    /// The value of a number that is written as an unsigned integer.
    pub open spec fn unsigned(self) -> Option<u64> {
        match self {
            JsonView::Number(JsonNumber::Unsigned(n)) => Some(n),
            _ => None,
        }
    }

    /// The value of a number that is held as a negative integer.
    pub open spec fn negative(self) -> Option<i64> {
        match self {
            JsonView::Number(JsonNumber::Negative(n)) => Some(n),
            _ => None,
        }
    }

    /// The truth value of a boolean; `None` for any other value.
    pub open spec fn truth(self) -> Option<bool> {
        match self {
            JsonView::Bool(b) => Some(b),
            _ => None,
        }
    }

    /// The double that stands for a number; `None` for any other value.
    pub open spec fn double(self) -> Option<Double> {
        match self {
            JsonView::Number(n) => Some(number_as_double(n)),
            _ => None,
        }
    }
}

/// The value of the first entry that has the key `key`.
pub open spec fn first_under(entries: Seq<(Seq<char>, JsonView)>, key: Seq<char>) -> Option<
    JsonView,
>
    decreases entries.len(),
{
    if entries.len() == 0 {
        None
    } else if entries.first().0 == key {
        Some(entries.first().1)
    } else {
        first_under(entries.drop_first(), key)
    }
}

/// The double that stands for a JSON number.
pub open spec fn number_as_double(n: JsonNumber) -> Double {
    match n {
        JsonNumber::Unsigned(n) => Double { bits: nearest_double_bits(n as int) },
        JsonNumber::Negative(n) => Double { bits: nearest_double_bits(n as int) },
        JsonNumber::Double(d) => d,
    }
}

/// Calls `serde_json::Number::as_f64` on the number that
/// `serde_json::Number::from_i128` makes of `n`, and takes the bits of the
/// result.
///
/// For an integer that a JSON number can hold, both calls succeed, and the
/// result is `n` converted to a double by a cast, which gives the nearest double,
/// and of two that are equally near the one with the even significand.
#[verifier::external_body]
fn integer_as_double(n: i128) -> (bits: Option<u64>)
    requires
        i64::MIN <= n <= u64::MAX,
    ensures
        bits == Some(nearest_double_bits(n as int)),
{
    serde_json::Number::from_i128(n)?.as_f64().map(|x| x.to_bits())
}

impl Json {
    /// The member `key` of an object.
    pub fn get(&self, key: &str) -> (member: Option<&Json>)
        ensures
            match member {
                Some(json) => self@.member(key@) == Some(json@),
                None => self@.member(key@) is None,
            },
    {
        match self {
            Json::Object(entries) => {
                let wanted = key.to_owned();
                let ghost content = self@->Object_0;
                assert(content.skip(0) =~= content);
                for i in 0..entries.len()
                    invariant
                        wanted@ == key@,
                        self@ == JsonView::Object(content),
                        entries@.len() == content.len(),
                        forall|k: int|
                            0 <= k < content.len() ==> (entries@[k].0@, entries@[k].1@)
                                == #[trigger] content[k],
                        first_under(content, key@) == first_under(content.skip(i as int), key@),
                {
                    let entry = &entries[i];
                    assert(content[i as int] == content.skip(i as int).first());
                    if entry.0 == wanted {
                        return Some(&entry.1);
                    }
                    assert(content.skip(i as int).drop_first() =~= content.skip(i + 1));
                }
                None
            },
            _ => None,
        }
    }

    /// The items of an array.
    pub fn as_array(&self) -> (items: Option<&Vec<Json>>)
        ensures
            match items {
                Some(items) => self@.items() == Some(views(items@)),
                None => self@.items() is None,
            },
    {
        match self {
            Json::Array(items) => {
                assert(self@->Array_0 =~= views(items@));
                Some(items)
            },
            _ => None,
        }
    }

    /// The text of a string.
    pub fn as_str(&self) -> (text: Option<&str>)
        ensures
            match text {
                Some(text) => self@.text() == Some(text@),
                None => self@.text() is None,
            },
    {
        match self {
            Json::String(text) => Some(text.as_str()),
            _ => None,
        }
    }

    /// The value of a number that is written as an unsigned integer.
    pub fn as_u64(&self) -> (n: Option<u64>)
        ensures
            n == self@.unsigned(),
    {
        match self {
            Json::Number(JsonNumber::Unsigned(n)) => Some(*n),
            _ => None,
        }
    }

    /// The truth value of a boolean.
    pub fn as_bool(&self) -> (b: Option<bool>)
        ensures
            b == self@.truth(),
    {
        match self {
            Json::Bool(b) => Some(*b),
            _ => None,
        }
    }

    /// The double that stands for a number. It is greater than zero exactly if
    /// the number is.
    pub fn as_double(&self) -> (d: Option<Double>)
        ensures
            d == self@.double(),
            self matches Json::Number(JsonNumber::Unsigned(n)) ==> (d->0.positive() <==> n > 0),
            self matches Json::Number(JsonNumber::Negative(n)) ==> (d->0.positive() <==> n > 0),
    {
        proof {
            match self {
                Json::Number(JsonNumber::Unsigned(n)) => {
                    law_the_nearest_double_keeps_the_sign(*n as int);
                },
                Json::Number(JsonNumber::Negative(n)) => {
                    law_the_nearest_double_keeps_the_sign(*n as int);
                },
                _ => {},
            }
        }
        let bits = match self {
            Json::Number(JsonNumber::Unsigned(n)) => integer_as_double(*n as i128),
            Json::Number(JsonNumber::Negative(n)) => integer_as_double(*n as i128),
            Json::Number(JsonNumber::Double(d)) => Some(d.bits),
            _ => None,
        };
        match bits {
            Some(bits) => Some(Double { bits }),
            None => None,
        }
    }
}

/// The items of the array under `key`.
pub open spec fn array_in(json: JsonView, key: Seq<char>) -> Option<Seq<JsonView>> {
    match json.member(key) {
        Some(value) => value.items(),
        None => None,
    }
}

/// The items of the array under `key`; none where there is no such array.
pub open spec fn items_under(json: JsonView, key: Seq<char>) -> Seq<JsonView> {
    match array_in(json, key) {
        Some(items) => items,
        None => Seq::empty(),
    }
}

/// The string under `key`.
pub open spec fn text_under(json: JsonView, key: Seq<char>) -> Option<Seq<char>> {
    match json.member(key) {
        Some(value) => value.text(),
        None => None,
    }
}

/// The unsigned integer under `key`.
pub open spec fn unsigned_under(json: JsonView, key: Seq<char>) -> Option<u64> {
    match json.member(key) {
        Some(value) => value.unsigned(),
        None => None,
    }
}

/// The negative integer under `key`.
pub open spec fn negative_under(json: JsonView, key: Seq<char>) -> Option<i64> {
    match json.member(key) {
        Some(value) => value.negative(),
        None => None,
    }
}

/// The boolean under `key`.
pub open spec fn truth_under(json: JsonView, key: Seq<char>) -> Option<bool> {
    match json.member(key) {
        Some(value) => value.truth(),
        None => None,
    }
}

/// The number under `key`, as a double.
pub open spec fn double_under(json: JsonView, key: Seq<char>) -> Option<Double> {
    match json.member(key) {
        Some(value) => value.double(),
        None => None,
    }
}

/// The contents of several values.
pub open spec fn views(values: Seq<Json>) -> Seq<JsonView> {
    values.map_values(|value: Json| value@)
}

/// The array under `key`.
pub fn array_under<'a>(json: &'a Json, key: &str) -> (items: Option<&'a Vec<Json>>)
    ensures
        match items {
            Some(items) => array_in(json@, key@) == Some(views(items@)),
            None => array_in(json@, key@) is None,
        },
{
    match json.get(key) {
        Some(value) => value.as_array(),
        None => None,
    }
}

/// The string under `key`.
pub fn str_under<'a>(json: &'a Json, key: &str) -> (text: Option<&'a str>)
    ensures
        match text {
            Some(text) => text_under(json@, key@) == Some(text@),
            None => text_under(json@, key@) is None,
        },
{
    match json.get(key) {
        Some(value) => value.as_str(),
        None => None,
    }
}

/// The unsigned integer under `key`.
pub fn u64_under(json: &Json, key: &str) -> (n: Option<u64>)
    ensures
        n == unsigned_under(json@, key@),
{
    match json.get(key) {
        Some(value) => value.as_u64(),
        None => None,
    }
}

/// The boolean under `key`.
pub fn bool_under(json: &Json, key: &str) -> (b: Option<bool>)
    ensures
        b == truth_under(json@, key@),
{
    match json.get(key) {
        Some(value) => value.as_bool(),
        None => None,
    }
}

/// The number under `key`, as a double. Of an integer it is greater than zero
/// exactly if the integer is.
pub fn f64_under(json: &Json, key: &str) -> (d: Option<Double>)
    ensures
        d == double_under(json@, key@),
        unsigned_under(json@, key@) matches Some(n) ==> (d matches Some(d) && (d.positive() <==> n
            > 0)),
        negative_under(json@, key@) matches Some(n) ==> (d matches Some(d) && (d.positive() <==> n
            > 0)),
{
    match json.get(key) {
        Some(value) => value.as_double(),
        None => None,
    }
}

/// `serde_json::Value`. Of such a value nothing is known but its contents,
/// `json_of`.
#[verifier::external_type_specification]
#[verifier::external_body]
pub struct ExJsonValue(serde_json::Value);

/// The contents of a `serde_json::Value`: its scalars, the items of its arrays,
/// and the members of its objects in the order in which they are walked.
pub uninterp spec fn json_of(value: serde_json::Value) -> JsonView;

/// The topmost level of a `serde_json::Value`.
///
/// A number is given by what it is as an unsigned integer, as a signed integer,
/// and by the bits of what it is as a double.
enum Node<'a> {
    Null,
    Bool(bool),
    Number(Option<u64>, Option<i64>, Option<u64>),
    String(&'a String),
    Array(&'a Vec<serde_json::Value>),
    Object(Vec<(&'a String, &'a serde_json::Value)>),
}

impl<'a> Node<'a> {
    /// Whether this is the topmost level of `json`.
    spec fn shows(self, json: JsonView) -> bool {
        match (self, json) {
            (Node::Null, JsonView::Null) => true,
            (Node::Bool(a), JsonView::Bool(b)) => a == b,
            (Node::Number(u, i, d), JsonView::Number(n)) => match n {
                JsonNumber::Unsigned(v) => u == Some(v),
                JsonNumber::Negative(v) => u is None && i == Some(v),
                JsonNumber::Double(v) => u is None && i is None && d == Some(v.bits),
            },
            (Node::String(a), JsonView::String(b)) => a@ == b,
            (Node::Array(a), JsonView::Array(b)) => {
                &&& a@.len() == b.len()
                &&& forall|k: int| 0 <= k < b.len() ==> json_of(a@[k]) == #[trigger] b[k]
            },
            (Node::Object(a), JsonView::Object(b)) => {
                &&& a@.len() == b.len()
                &&& forall|k: int|
                    0 <= k < b.len() ==> (a@[k].0@, json_of(*a@[k].1)) == #[trigger] b[k]
            },
            _ => false,
        }
    }
}

/// Tells the variants of a `serde_json::Value` apart, and hands out what each
/// holds.
///
/// A number is read through `as_u64`, `as_i64` and `as_f64` of
/// `serde_json::Number`. A number that is held as an unsigned integer is what
/// the first gives. One that is held as a negative integer is what the second
/// gives, and the first gives nothing. Any other number is held as a double,
/// which the third gives, and the first two give nothing. An object hands out
/// its members through `serde_json::Map::iter`.
#[verifier::external_body]
fn open_value<'a>(value: &'a serde_json::Value) -> (node: Node<'a>)
    ensures
        node.shows(json_of(*value)),
{
    match value {
        serde_json::Value::Null => Node::Null,
        serde_json::Value::Bool(b) => Node::Bool(*b),
        serde_json::Value::Number(n) => {
            Node::Number(n.as_u64(), n.as_i64(), n.as_f64().map(|x| x.to_bits()))
        },
        serde_json::Value::String(s) => Node::String(s),
        serde_json::Value::Array(items) => Node::Array(items),
        serde_json::Value::Object(members) => Node::Object(members.iter().collect()),
    }
}

/// What `serde_json::from_str` reads from `text`: a value, or the message of the
/// error that it gives.
pub uninterp spec fn json_from_str(text: Seq<char>) -> Result<JsonView, Seq<char>>;

/// Calls `serde_json::from_str`, and hands an error out as it is displayed.
///
/// The value or the message depends on the text alone.
#[verifier::external_body]
fn read_value(text: &str) -> (read: Result<serde_json::Value, String>)
    ensures
        match read {
            Ok(value) => json_from_str(text@) == Ok::<JsonView, Seq<char>>(json_of(value)),
            Err(message) => json_from_str(text@) == Err::<JsonView, Seq<char>>(message@),
        },
{
    serde_json::from_str(text).map_err(|error: serde_json::Error| error.to_string())
}

impl Json {
    /// Reads JSON text. The error is the parser's message.
    pub fn parse(text: &str) -> (read: Result<Json, String>)
        ensures
            match read {
                Ok(json) => json_from_str(text@) == Ok::<JsonView, Seq<char>>(json@),
                Err(message) => json_from_str(text@) == Err::<JsonView, Seq<char>>(message@),
            },
    {
        match read_value(text) {
            Ok(value) => Ok(Json::from_value(&value)),
            Err(message) => Err(message),
        }
    }

    /// Copies a `serde_json::Value`.
    pub fn from_value(value: &serde_json::Value) -> (json: Json)
        ensures
            json@ == json_of(*value),
        decreases json_of(*value),
    {
        match open_value(value) {
            Node::Null => Json::Null,
            Node::Bool(b) => Json::Bool(b),
            Node::Number(unsigned, signed, bits) => match (unsigned, signed, bits) {
                (Some(n), _, _) => Json::Number(JsonNumber::Unsigned(n)),
                (None, Some(n), _) => Json::Number(JsonNumber::Negative(n)),
                (None, None, Some(bits)) => Json::Number(JsonNumber::Double(Double { bits })),
                (None, None, None) => unreached(),
            },
            Node::String(s) => Json::String(s.clone()),
            Node::Array(items) => {
                let ghost content = json_of(*value)->Array_0;
                let mut list: Vec<Json> = Vec::new();
                for i in 0..items.len()
                    invariant
                        json_of(*value) == JsonView::Array(content),
                        items@.len() == content.len(),
                        forall|k: int|
                            0 <= k < content.len() ==> json_of(items@[k]) == #[trigger] content[k],
                        list@.len() == i,
                        forall|k: int| 0 <= k < i ==> list@[k]@ == #[trigger] content[k],
                {
                    let item = &items[i];
                    assert(decreases_to!(json_of(*value) => json_of(*value)->Array_0[i as int]));
                    assert(json_of(*item) == content[i as int]);
                    list.push(Json::from_value(item));
                }
                let json = Json::Array(list);
                assert(json@->Array_0 =~= content);
                json
            },
            Node::Object(members) => {
                let ghost content = json_of(*value)->Object_0;
                let mut list: Vec<(String, Json)> = Vec::new();
                for i in 0..members.len()
                    invariant
                        json_of(*value) == JsonView::Object(content),
                        members@.len() == content.len(),
                        forall|k: int|
                            0 <= k < content.len() ==> (members@[k].0@, json_of(*members@[k].1))
                                == #[trigger] content[k],
                        list@.len() == i,
                        forall|k: int|
                            0 <= k < i ==> (list@[k].0@, list@[k].1@) == #[trigger] content[k],
                {
                    let member = members[i];
                    assert(decreases_to!(json_of(*value) => json_of(*value)->Object_0[i as int].1));
                    assert(json_of(*member.1) == content[i as int].1);
                    list.push((member.0.clone(), Json::from_value(member.1)));
                }
                let json = Json::Object(list);
                assert(json@->Object_0 =~= content);
                json
            },
        }
    }
}

} // verus!
