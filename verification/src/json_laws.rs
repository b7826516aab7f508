//! What holds of every JSON value.

use crate::double::{nearest_double_bits, Double};
use crate::json::{
    array_in, double_under, first_under, items_under, json_view, negative_under, text_under,
    truth_under, unsigned_under, views, Json, JsonNumber, JsonView,
};
use vstd::prelude::*;

verus! {

broadcast use vstd::string::group_string_axioms;

/// Nothing is lost in what is seen of a value: scalars are seen as they are,
/// arrays item by item, and objects member by member, in order.
pub proof fn law_values_are_seen_whole(json: Json)
    ensures
        json is Null ==> json@ is Null,
        json matches Json::Bool(b) ==> json@ == JsonView::Bool(b),
        json matches Json::Number(n) ==> json@ == JsonView::Number(n),
        json matches Json::String(text) ==> json@ == JsonView::String(text@),
        json matches Json::Array(items) ==> {
            &&& json@ is Array
            &&& json@->Array_0.len() == items@.len()
            &&& forall|i: int|
                0 <= i < items@.len() ==> #[trigger] json@->Array_0[i] == items@[i]@
        },
        json matches Json::Object(entries) ==> {
            &&& json@ is Object
            &&& json@->Object_0.len() == entries@.len()
            &&& forall|i: int|
                0 <= i < entries@.len() ==> #[trigger] json@->Object_0[i] == (
                    entries@[i].0@,
                    entries@[i].1@,
                )
        },
{
    reveal_with_fuel(json_view, 2);
}

/// The contents of several values are the contents of each, in order.
pub proof fn law_several_values_are_seen_whole(values: Seq<Json>)
    ensures
        views(values).len() == values.len(),
        forall|i: int| 0 <= i < values.len() ==> #[trigger] views(values)[i] == values[i]@,
{
}

/// A member of an object is the value of the first entry that has its key. There
/// is none only where no entry has the key, or where the value is no object.
pub proof fn law_members_are_found_under_their_first_key(json: JsonView, key: Seq<char>)
    ensures
        match json.member(key) {
            Some(value) => {
                &&& json is Object
                &&& exists|i: int|
                    {
                        &&& 0 <= i < json->Object_0.len()
                        &&& #[trigger] json->Object_0[i] == (key, value)
                        &&& forall|j: int| 0 <= j < i ==> (#[trigger] json->Object_0[j]).0 != key
                    }
            },
            None => json is Object ==> forall|j: int|
                0 <= j < json->Object_0.len() ==> (#[trigger] json->Object_0[j]).0 != key,
        },
{
    if let JsonView::Object(entries) = json {
        lemma_first_under(entries, key);
    }
}

proof fn lemma_first_under(entries: Seq<(Seq<char>, JsonView)>, key: Seq<char>)
    ensures
        match first_under(entries, key) {
            Some(value) => exists|i: int|
                {
                    &&& 0 <= i < entries.len()
                    &&& #[trigger] entries[i] == (key, value)
                    &&& forall|j: int| 0 <= j < i ==> (#[trigger] entries[j]).0 != key
                },
            None => forall|j: int| 0 <= j < entries.len() ==> (#[trigger] entries[j]).0 != key,
        },
    decreases entries.len(),
{
    if entries.len() > 0 {
        if entries.first().0 == key {
            assert(entries[0] == (key, entries.first().1));
        } else {
            let rest = entries.drop_first();
            lemma_first_under(rest, key);
            match first_under(rest, key) {
                Some(value) => {
                    let i = choose|i: int|
                        {
                            &&& 0 <= i < rest.len()
                            &&& #[trigger] rest[i] == (key, value)
                            &&& forall|j: int| 0 <= j < i ==> (#[trigger] rest[j]).0 != key
                        };
                    assert(entries[i + 1] == (key, value));
                    assert forall|j: int| 0 <= j < i + 1 implies (#[trigger] entries[j]).0
                        != key by {
                        if j > 0 {
                            assert(rest[j - 1] == entries[j]);
                        }
                    }
                },
                None => {
                    assert forall|j: int| 0 <= j < entries.len() implies (#[trigger] entries[j]).0
                        != key by {
                        if j > 0 {
                            assert(rest[j - 1] == entries[j]);
                        }
                    }
                },
            }
        }
    }
}

/// A value gives out what it holds, whole, to the one question that fits it, and
/// nothing to the others. A number that is held as an integer counts as a double
/// too: the nearest one.
pub proof fn law_values_give_out_what_they_hold(json: JsonView)
    ensures
        json.items() == match json {
            JsonView::Array(items) => Some(items),
            _ => None,
        },
        json.text() == match json {
            JsonView::String(text) => Some(text),
            _ => None,
        },
        json.truth() == match json {
            JsonView::Bool(b) => Some(b),
            _ => None,
        },
        json.unsigned() == match json {
            JsonView::Number(JsonNumber::Unsigned(n)) => Some(n),
            _ => None,
        },
        json.negative() == match json {
            JsonView::Number(JsonNumber::Negative(n)) => Some(n),
            _ => None,
        },
        json.double() == match json {
            JsonView::Number(JsonNumber::Unsigned(n)) => Some(
                Double { bits: nearest_double_bits(n as int) },
            ),
            JsonView::Number(JsonNumber::Negative(n)) => Some(
                Double { bits: nearest_double_bits(n as int) },
            ),
            JsonView::Number(JsonNumber::Double(d)) => Some(d),
            _ => None,
        },
{
}

/// What stands under a key is what the member with that key holds, if it is of the
/// kind that is asked for.
pub proof fn law_what_stands_under_a_key_is_the_member(json: JsonView, key: Seq<char>)
    ensures
        array_in(json, key) == match json.member(key) {
            Some(JsonView::Array(items)) => Some(items),
            _ => None,
        },
        text_under(json, key) == match json.member(key) {
            Some(JsonView::String(text)) => Some(text),
            _ => None,
        },
        truth_under(json, key) == match json.member(key) {
            Some(JsonView::Bool(b)) => Some(b),
            _ => None,
        },
        unsigned_under(json, key) == match json.member(key) {
            Some(JsonView::Number(JsonNumber::Unsigned(n))) => Some(n),
            _ => None,
        },
        negative_under(json, key) == match json.member(key) {
            Some(JsonView::Number(JsonNumber::Negative(n))) => Some(n),
            _ => None,
        },
        json.member(key) matches Some(JsonView::Number(JsonNumber::Double(d))) ==> double_under(
            json,
            key,
        ) == Some(d),
        json.member(key) matches Some(JsonView::Number(JsonNumber::Unsigned(n))) ==> double_under(
            json,
            key,
        ) == Some(Double { bits: nearest_double_bits(n as int) }),
        json.member(key) matches Some(JsonView::Number(JsonNumber::Negative(n))) ==> double_under(
            json,
            key,
        ) == Some(Double { bits: nearest_double_bits(n as int) }),
        !(json.member(key) matches Some(JsonView::Number(_))) ==> double_under(json, key) is None,
        items_under(json, key) == match json.member(key) {
            Some(JsonView::Array(items)) => items,
            _ => Seq::empty(),
        },
{
}

} // verus!
