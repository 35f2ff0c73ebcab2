//! JSON values, as `serde_json` reads and writes them.

use vstd::prelude::*;

verus! {

/// What a JSON value holds.
pub enum Json {
    Null,
    Bool(bool),
    Unsigned(u64),
    Negative(i64),
    /// Any other number, by the bits of the double that stands for it.
    Double(u64),
    Text(Seq<char>),
    Array(Seq<Json>),
    Object(Map<Seq<char>, Json>),
}

impl Json {
    /// The member `key` of an object; null where the value has none.
    pub open spec fn member(self, key: Seq<char>) -> Json {
        match self {
            Json::Object(members) if members.dom().contains(key) => members[key],
            _ => Json::Null,
        }
    }

    /// The text that the value is.
    pub open spec fn text(self) -> Option<Seq<char>> {
        match self {
            Json::Text(text) => Some(text),
            _ => None,
        }
    }

    /// The whole number, not below zero, that the value is.
    pub open spec fn unsigned(self) -> Option<u64> {
        match self {
            Json::Unsigned(number) => Some(number),
            _ => None,
        }
    }
}

/// The members of an object that is filled from left to right.
pub open spec fn members_of(members: Seq<(Seq<char>, Json)>) -> Map<Seq<char>, Json>
    decreases members.len(),
{
    if members.len() == 0 {
        Map::empty()
    } else {
        members_of(members.drop_last()).insert(members.last().0, members.last().1)
    }
}

/// The object with these members.
pub open spec fn object_of(members: Seq<(Seq<char>, Json)>) -> Json {
    Json::Object(members_of(members))
}

/// Whether a value is no deeper than `depth` and holds no number by the bits of a double.
pub open spec fn is_plain(json: Json, depth: nat) -> bool
    decreases depth,
{
    match json {
        Json::Double(_) => false,
        Json::Array(elements) => depth > 0 && forall|i: int|
            0 <= i < elements.len() ==> is_plain(#[trigger] elements[i], (depth - 1) as nat),
        Json::Object(members) => depth > 0 && forall|key: Seq<char>| #[trigger]
            members.dom().contains(key) ==> is_plain(members[key], (depth - 1) as nat),
        _ => true,
    }
}

/// The value type of `serde_json`.
#[verifier::external_type_specification]
#[verifier::external_body]
pub struct ExValue(serde_json::Value);

/// What a value of `serde_json` holds.
pub uninterp spec fn json_of(value: serde_json::Value) -> Json;

/// What the elements of an array hold.
pub open spec fn elements_of(values: Seq<serde_json::Value>) -> Seq<Json> {
    values.map_values(|value: serde_json::Value| json_of(value))
}

/// What the members of an object are named and hold.
pub open spec fn entries_of(members: Seq<(String, serde_json::Value)>) -> Seq<(Seq<char>, Json)> {
    members.map_values(|entry: (String, serde_json::Value)| (entry.0@, json_of(entry.1)))
}

/// Whether no two members of an object are of one name.
pub open spec fn names_differ(members: Seq<(String, serde_json::Value)>) -> bool {
    forall|i: int, j: int|
        0 <= i < j < members.len() ==> (#[trigger] members[i]).0@ != (#[trigger] members[j]).0@
}

/// What `serde_json::from_str` reads from a text; none where it refuses the text.
pub uninterp spec fn json_in(text: Seq<char>) -> Option<Json>;

/// The text that `serde_json` writes for a value.
pub uninterp spec fn written(json: Json) -> Seq<char>;

/// Calls `serde_json::from_str`. What it reads from which text is named.
#[verifier::external_body]
pub(crate) fn parse(text: &str) -> (res: Option<serde_json::Value>)
    ensures
        match res {
            Some(value) => json_in(text@) == Some(json_of(value)),
            None => json_in(text@) is None,
        },
{
    serde_json::from_str(text).ok()
}

/// Calls `serde_json::Value::to_string`. The text is named; it depends on what the value holds
/// alone, for an object keeps its members in the order of their names. `serde_json::from_str`
/// reads the value back from it. Left out are values too deep for the reader, which goes down 127
/// levels, and those with a double, which may lose its last bit.
#[verifier::external_body]
pub(crate) fn write_value(value: &serde_json::Value) -> (res: String)
    requires
        is_plain(json_of(*value), 100),
    ensures
        res@ == written(json_of(*value)),
        json_in(res@) == Some(json_of(*value)),
{
    value.to_string()
}

/// Indexes a value by a name (`std::ops::Index` of `serde_json::Value`): the member of that name,
/// or null where the value is no object or has no such member.
#[verifier::external_body]
pub(crate) fn member<'a>(value: &'a serde_json::Value, key: &str) -> (res: &'a serde_json::Value)
    ensures
        json_of(*res) == json_of(*value).member(key@),
{
    &value[key]
}

/// Calls `serde_json::Value::as_str`: the text, where the value is one.
#[verifier::external_body]
pub(crate) fn as_text(value: &serde_json::Value) -> (res: Option<&str>)
    ensures
        match res {
            Some(text) => json_of(*value).text() == Some(text@),
            None => json_of(*value).text() is None,
        },
{
    value.as_str()
}

/// Calls `serde_json::Value::as_u64`: the number, where the value is a whole one not below zero.
#[verifier::external_body]
pub(crate) fn as_unsigned(value: &serde_json::Value) -> (res: Option<u64>)
    ensures
        res == json_of(*value).unsigned(),
{
    value.as_u64()
}

/// The null of `serde_json::Value`.
#[verifier::external_body]
pub(crate) fn null() -> (res: serde_json::Value)
    ensures
        json_of(res) == Json::Null,
{
    serde_json::Value::Null
}

/// A `serde_json::Value` made from a truth value.
#[verifier::external_body]
pub(crate) fn boolean(value: bool) -> (res: serde_json::Value)
    ensures
        json_of(res) == Json::Bool(value),
{
    serde_json::Value::from(value)
}

/// A `serde_json::Value` made from a whole number not below zero.
#[verifier::external_body]
pub(crate) fn unsigned(value: u64) -> (res: serde_json::Value)
    ensures
        json_of(res) == Json::Unsigned(value),
{
    serde_json::Value::from(value)
}

/// A `serde_json::Value` made from a text.
#[verifier::external_body]
pub(crate) fn string(value: &str) -> (res: serde_json::Value)
    ensures
        json_of(res) == Json::Text(value@),
{
    serde_json::Value::from(value)
}

/// A `serde_json::Value` made from its elements.
#[verifier::external_body]
pub(crate) fn array(values: Vec<serde_json::Value>) -> (res: serde_json::Value)
    ensures
        json_of(res) == Json::Array(elements_of(values@)),
{
    serde_json::Value::from(values)
}

/// A `serde_json::Value` collected from the members of an object, no two of them of one name.
#[verifier::external_body]
pub(crate) fn object(members: Vec<(String, serde_json::Value)>) -> (res: serde_json::Value)
    requires
        names_differ(members@),
    ensures
        json_of(res) == object_of(entries_of(members@)),
{
    serde_json::Value::from_iter(members)
}

/// A member of an object that comes after all others of its name is the one found by the name.
pub proof fn lemma_member_of_object(members: Seq<(Seq<char>, Json)>, at: int)
    requires
        0 <= at < members.len(),
        forall|i: int| at < i < members.len() ==> (#[trigger] members[i]).0 != members[at].0,
    ensures
        object_of(members).member(members[at].0) == members[at].1,
        members_of(members).dom().contains(members[at].0),
    decreases members.len(),
{
    if at < members.len() - 1 {
        let front = members.drop_last();
        assert forall|i: int| at < i < front.len() implies (#[trigger] front[i]).0 != front[at].0 by {
            assert(front[i] == members[i]);
        }
        lemma_member_of_object(front, at);
        assert(members[members.len() - 1].0 != members[at].0);
    }
}

/// An object is plain where its members are, at one level more.
pub proof fn lemma_plain_object(members: Seq<(Seq<char>, Json)>, depth: nat)
    requires
        forall|i: int| 0 <= i < members.len() ==> is_plain((#[trigger] members[i]).1, depth),
    ensures
        is_plain(object_of(members), depth + 1),
    decreases members.len(),
{
    if members.len() > 0 {
        let front = members.drop_last();
        assert forall|i: int| 0 <= i < front.len() implies is_plain((#[trigger] front[i]).1, depth) by {
            assert(front[i] == members[i]);
        }
        lemma_plain_object(front, depth);
        let last = members.last();
        assert(is_plain(members[members.len() - 1].1, depth));
        assert forall|key: Seq<char>| #[trigger] members_of(members).dom().contains(key) implies is_plain(
            members_of(members)[key],
            depth,
        ) by {
            if key != last.0 {
                let before = object_of(front);
                assert(before->Object_0.dom().contains(key));
            }
        }
    }
}

/// An array is plain where its elements are, at one level more.
pub proof fn lemma_plain_array(elements: Seq<Json>, depth: nat)
    requires
        forall|i: int| 0 <= i < elements.len() ==> is_plain(#[trigger] elements[i], depth),
    ensures
        is_plain(Json::Array(elements), depth + 1),
{
}

/// A member of an object.
pub(crate) fn entry(key: &str, value: serde_json::Value) -> (res: (String, serde_json::Value))
    ensures
        res.0@ == key@,
        res.1 == value,
{
    (key.to_owned(), value)
}

/// A member is found in an object by its name, and nothing is found in anything else; a value is a
/// text or a whole number exactly where it was made as one.
pub proof fn law_members_are_found_by_name(members: Map<Seq<char>, Json>, key: Seq<char>, json: Json)
    ensures
        members.dom().contains(key) ==> Json::Object(members).member(key) == members[key],
        !members.dom().contains(key) ==> Json::Object(members).member(key) == Json::Null,
        !(json is Object) ==> json.member(key) == Json::Null,
        json.text() is Some <==> json is Text,
        json.text() matches Some(text) ==> json == Json::Text(text),
        json.unsigned() is Some <==> json is Unsigned,
        json.unsigned() matches Some(number) ==> json == Json::Unsigned(number),
{
}

/// An object has the members that it is filled with: the last of each name, and no others.
pub proof fn law_object_has_its_members(members: Seq<(Seq<char>, Json)>, key: Seq<char>, json: Json)
    ensures
        object_of(members.push((key, json))).member(key) == json,
        forall|other: Seq<char>| other != key ==> #[trigger] object_of(members.push((key, json))).member(other)
            == object_of(members).member(other),
        object_of(seq![]).member(key) == Json::Null,
{
    assert(members.push((key, json)).drop_last() =~= members);
}

/// An object of two members.
pub proof fn lemma_object_of_two(members: Seq<(Seq<char>, Json)>)
    requires
        members.len() == 2,
    ensures
        object_of(members) == Json::Object(
            map![members[0].0 => members[0].1, members[1].0 => members[1].1],
        ),
{
    reveal_with_fuel(members_of, 3);
    assert(members.drop_last().drop_last() =~= seq![]);
    assert(members.drop_last().last() == members[0]);
}

/// An object of three members.
pub proof fn lemma_object_of_three(members: Seq<(Seq<char>, Json)>)
    requires
        members.len() == 3,
    ensures
        object_of(members) == Json::Object(
            map![members[0].0 => members[0].1, members[1].0 => members[1].1, members[2].0 => members[2].1],
        ),
{
    lemma_object_of_two(members.drop_last());
    assert(members.drop_last()[0] == members[0] && members.drop_last()[1] == members[1]);
}

} // verus!
