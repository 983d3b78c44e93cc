//! Operations on JSON values, and the calls into `serde_json` that read and write them.

use crate::text::{
    chars_of, decimal, decimal_int, decimal_text, natural, natural_of, same_text, str_less,
    text_less, texts_view,
};
use crate::value::{group_json_view, items_view, members_view, Json, JsonView};
use vstd::prelude::*;

verus! {

broadcast use group_json_view;

// ---------------------------------------------------------------------------
// Looking into a value
// ---------------------------------------------------------------------------

/// The value of the first member named `key`.
pub open spec fn lookup(members: Seq<(Seq<char>, JsonView)>, key: Seq<char>) -> Option<JsonView>
    decreases members.len(),
{
    if members.len() == 0 {
        None
    } else if members[0].0 == key {
        Some(members[0].1)
    } else {
        lookup(members.skip(1), key)
    }
}

impl JsonView {
    pub open spec fn get(self, key: Seq<char>) -> Option<JsonView> {
        match self {
            JsonView::Object(members) => lookup(members, key),
            _ => None,
        }
    }

    pub open spec fn as_str(self) -> Option<Seq<char>> {
        match self {
            JsonView::Str(s) => Some(s),
            _ => None,
        }
    }

    pub open spec fn as_array(self) -> Option<Seq<JsonView>> {
        match self {
            JsonView::Array(items) => Some(items),
            _ => None,
        }
    }

    pub open spec fn as_bool(self) -> Option<bool> {
        match self {
            JsonView::Bool(b) => Some(b),
            _ => None,
        }
    }

    /// The natural number that this value writes, where it fits in 64 bits.
    pub open spec fn as_u64(self) -> Option<nat> {
        match self {
            JsonView::Number(n) => natural(n, 0x1_0000_0000_0000_0000),
            _ => None,
        }
    }

    /// The string in member `key`, where there is one.
    pub open spec fn str_at(self, key: Seq<char>) -> Option<Seq<char>> {
        match self.get(key) {
            Some(v) => v.as_str(),
            None => None,
        }
    }

    /// The string in member `key`, or `default`.
    pub open spec fn str_or(self, key: Seq<char>, default: Seq<char>) -> Seq<char> {
        match self.str_at(key) {
            Some(s) => s,
            None => default,
        }
    }
}

impl Clone for Json {
    fn clone(&self) -> (r: Self)
        ensures
            r@ == self@,
        decreases self,
    {
        match self {
            Json::Null => Json::Null,
            Json::Bool(b) => Json::Bool(*b),
            Json::Number(n) => Json::Number(n.clone()),
            Json::Str(s) => Json::Str(s.clone()),
            Json::Array(items) => {
                let mut copy: Vec<Json> = Vec::new();
                let mut i: usize = 0;
                while i < items.len()
                    invariant
                        i <= items.len(),
                        *self == Json::Array(*items),
                        items_view(copy@) == items_view(items@).take(i as int),
                    decreases items.len() - i,
                {
                    assert(decreases_to!(*self => self->Array_0@[i as int]));
                    copy.push(items[i].clone());
                    assert(items_view(copy@) =~= items_view(items@).take(i + 1));
                    i += 1;
                }
                assert(items_view(copy@) =~= items_view(items@));
                Json::Array(copy)
            },
            Json::Object(members) => {
                let mut copy: Vec<(String, Json)> = Vec::new();
                let mut i: usize = 0;
                while i < members.len()
                    invariant
                        i <= members.len(),
                        *self == Json::Object(*members),
                        members_view(copy@) == members_view(members@).take(i as int),
                    decreases members.len() - i,
                {
                    assert(decreases_to!(*self => self->Object_0@[i as int].1));
                    let key = members[i].0.clone();
                    let value = members[i].1.clone();
                    copy.push((key, value));
                    assert(members_view(copy@) =~= members_view(members@).take(i + 1));
                    i += 1;
                }
                assert(members_view(copy@) =~= members_view(members@));
                Json::Object(copy)
            },
        }
    }
}

impl Json {
    /// The member named `key`, where this is an object that has it.
    pub fn get(&self, key: &str) -> (r: Option<&Json>)
        ensures
            match r {
                Some(v) => self@.get(key@) == Some(v@),
                None => self@.get(key@) is None,
            },
    {
        match self {
            Json::Object(members) => {
                let mut i: usize = 0;
                assert(members_view(members@).skip(0) =~= members_view(members@));
                while i < members.len()
                    invariant
                        i <= members.len(),
                        *self == Json::Object(*members),
                        lookup(members_view(members@), key@) == lookup(
                            members_view(members@).skip(i as int),
                            key@,
                        ),
                    decreases members.len() - i,
                {
                    if same_text(members[i].0.as_str(), key) {
                        return Some(&members[i].1);
                    }
                    assert(members_view(members@).skip(i as int).skip(1) =~= members_view(
                        members@,
                    ).skip(i + 1));
                    i += 1;
                }
                None
            },
            _ => None,
        }
    }

    pub fn as_str(&self) -> (r: Option<&str>)
        ensures
            match r {
                Some(s) => self@.as_str() == Some(s@),
                None => self@.as_str() is None,
            },
    {
        match self {
            Json::Str(s) => Some(s.as_str()),
            _ => None,
        }
    }

    pub fn as_array(&self) -> (r: Option<&Vec<Json>>)
        ensures
            match r {
                Some(items) => self@.as_array() == Some(items_view(items@)),
                None => self@.as_array() is None,
            },
    {
        match self {
            Json::Array(items) => Some(items),
            _ => None,
        }
    }

    pub fn as_bool(&self) -> (r: Option<bool>)
        ensures
            r == self@.as_bool(),
    {
        match self {
            Json::Bool(b) => Some(*b),
            _ => None,
        }
    }

    pub fn as_u64(&self) -> (r: Option<u64>)
        ensures
            match r {
                Some(n) => self@.as_u64() == Some(n as nat),
                None => self@.as_u64() is None,
            },
    {
        match self {
            Json::Number(text) => {
                let chars = chars_of(text.as_str());
                natural_of(chars.as_slice())
            },
            _ => None,
        }
    }

    pub fn is_null(&self) -> (r: bool)
        ensures
            r == (self@ == JsonView::Null),
    {
        match self {
            Json::Null => true,
            _ => false,
        }
    }

    /// The string in member `key`, where there is one.
    pub fn str_at(&self, key: &str) -> (r: Option<&str>)
        ensures
            match r {
                Some(s) => self@.str_at(key@) == Some(s@),
                None => self@.str_at(key@) is None,
            },
    {
        match self.get(key) {
            Some(v) => v.as_str(),
            None => None,
        }
    }

    pub fn text(s: &str) -> (r: Json)
        ensures
            r@ == JsonView::Str(s@),
    {
        Json::Str(s.to_owned())
    }

    pub fn number(n: u64) -> (r: Json)
        ensures
            r@ == JsonView::Number(decimal(n as nat)),
    {
        Json::Number(decimal_text(n))
    }
}

// ---------------------------------------------------------------------------
// Objects
// ---------------------------------------------------------------------------

/// The members with `key` set to `value`: a member of that name is replaced, a new one goes
/// before the first greater key.
pub open spec fn insert_member(
    members: Seq<(Seq<char>, JsonView)>,
    key: Seq<char>,
    value: JsonView,
) -> Seq<(Seq<char>, JsonView)>
    decreases members.len(),
{
    if members.len() == 0 {
        seq![(key, value)]
    } else if members[0].0 == key {
        seq![(key, value)] + members.skip(1)
    } else if text_less(key, members[0].0) {
        seq![(key, value)] + members
    } else {
        seq![members[0]] + insert_member(members.skip(1), key, value)
    }
}

/// What a key was set to is what the key holds; the other keys hold what they held.
pub proof fn law_insert_then_lookup(
    members: Seq<(Seq<char>, JsonView)>,
    key: Seq<char>,
    value: JsonView,
    other: Seq<char>,
)
    requires
        other != key,
    ensures
        lookup(insert_member(members, key, value), key) == Some(value),
        lookup(insert_member(members, key, value), other) == lookup(members, other),
    decreases members.len(),
{
    let inserted = insert_member(members, key, value);
    if members.len() == 0 {
        assert(inserted.skip(1) =~= members);
    } else if members[0].0 == key {
        assert(inserted.skip(1) =~= members.skip(1));
    } else if text_less(key, members[0].0) {
        assert(inserted.skip(1) =~= members);
    } else {
        law_insert_then_lookup(members.skip(1), key, value, other);
        assert(inserted.skip(1) =~= insert_member(members.skip(1), key, value));
    }
}

/// Sets the member `key` of an object's members to `value`.
pub fn set_member(members: &mut Vec<(String, Json)>, key: String, value: Json)
    ensures
        members_view(final(members)@) == insert_member(members_view(old(members)@), key@, value@),
{
    let ghost before = members_view(members@);
    let mut i: usize = 0;
    assert(before.skip(0) =~= before);
    assert(before.take(0) + insert_member(before, key@, value@) =~= insert_member(
        before,
        key@,
        value@,
    ));
    while i < members.len()
        invariant_except_break
            i <= members.len(),
            members@ == old(members)@,
            before == members_view(members@),
            insert_member(before, key@, value@) == before.take(i as int) + insert_member(
                before.skip(i as int),
                key@,
                value@,
            ),
        invariant
            members@ == old(members)@,
            before == members_view(members@),
        ensures
            i <= members.len(),
            insert_member(before, key@, value@) == before.take(i as int) + seq![(key@, value@)] + (
            if i < members.len() && before[i as int].0 == key@ {
                before.skip(i + 1)
            } else {
                before.skip(i as int)
            }),
        decreases members.len() - i,
    {
        let ghost here = before.skip(i as int);
        assert(here.skip(1) =~= before.skip(i + 1));
        assert(here[0].0 == members@[i as int].0@);
        if same_text(members[i].0.as_str(), key.as_str()) {
            assert(insert_member(here, key@, value@) == seq![(key@, value@)] + here.skip(1));
            assert(before.take(i as int) + (seq![(key@, value@)] + here.skip(1)) =~= before.take(
                i as int,
            ) + seq![(key@, value@)] + before.skip(i + 1));
            break ;
        }
        if str_less(key.as_str(), members[i].0.as_str()) {
            assert(insert_member(here, key@, value@) == seq![(key@, value@)] + here);
            assert(before.take(i as int) + (seq![(key@, value@)] + here) =~= before.take(i as int)
                + seq![(key@, value@)] + before.skip(i as int));
            break ;
        }
        assert(insert_member(here, key@, value@) == seq![here[0]] + insert_member(
            here.skip(1),
            key@,
            value@,
        ));
        assert(before.take(i as int) + (seq![here[0]] + insert_member(here.skip(1), key@, value@))
            =~= before.take(i + 1) + insert_member(here.skip(1), key@, value@));
        i += 1;
        if i == members.len() {
            assert(before.skip(i as int) =~= Seq::empty());
            assert(insert_member(before.skip(i as int), key@, value@) =~= seq![(key@, value@)]);
            assert(before.take(i as int) + seq![(key@, value@)] + before.skip(i as int)
                =~= before.take(i as int) + seq![(key@, value@)]);
        }
    }
    if i < members.len() && same_text(members[i].0.as_str(), key.as_str()) {
        assert(before[i as int].0 == key@);
        members.set(i, (key, value));
    } else {
        members.insert(i, (key, value));
    }
    assert(members_view(members@) =~= insert_member(before, key@, value@));
}

/// Puts a member behind the others.
pub fn push_member(members: &mut Vec<(String, Json)>, key: &str, value: Json)
    ensures
        members_view(final(members)@) == members_view(old(members)@).push((key@, value@)),
{
    let ghost before = members_view(members@);
    members.push((key.to_owned(), value));
    assert(members_view(members@) =~= before.push((key@, value@)));
}

pub open spec fn strings_json(texts: Seq<Seq<char>>) -> JsonView {
    JsonView::Array(texts.map_values(|t: Seq<char>| JsonView::Str(t)))
}

/// The array of these texts.
pub fn json_of_texts(texts: &Vec<String>) -> (r: Json)
    ensures
        r@ == strings_json(texts_view(texts@)),
{
    let ghost all = texts_view(texts@).map_values(|t: Seq<char>| JsonView::Str(t));
    let mut items: Vec<Json> = Vec::new();
    let mut i: usize = 0;
    while i < texts.len()
        invariant
            i <= texts.len(),
            all == texts_view(texts@).map_values(|t: Seq<char>| JsonView::Str(t)),
            items_view(items@) == all.take(i as int),
        decreases texts.len() - i,
    {
        let ghost so_far = items_view(items@);
        items.push(Json::text(texts[i].as_str()));
        assert(items_view(items@) =~= so_far.push(all[i as int]));
        assert(items_view(items@) =~= all.take(i + 1));
        i += 1;
    }
    assert(items_view(items@) =~= all);
    Json::Array(items)
}

/// The object with one member.
pub fn object1(k1: &str, v1: Json) -> (r: Json)
    ensures
        r@ == JsonView::Object(seq![(k1@, v1@)]),
{
    let mut members: Vec<(String, Json)> = Vec::new();
    members.push((k1.to_owned(), v1));
    assert(members_view(members@) =~= seq![(k1@, v1@)]);
    Json::Object(members)
}

/// The object with two members, in the order given.
pub fn object2(k1: &str, v1: Json, k2: &str, v2: Json) -> (r: Json)
    ensures
        r@ == JsonView::Object(seq![(k1@, v1@), (k2@, v2@)]),
{
    let mut members: Vec<(String, Json)> = Vec::new();
    members.push((k1.to_owned(), v1));
    members.push((k2.to_owned(), v2));
    assert(members_view(members@) =~= seq![(k1@, v1@), (k2@, v2@)]);
    Json::Object(members)
}

/// The object with three members, in the order given.
pub fn object3(k1: &str, v1: Json, k2: &str, v2: Json, k3: &str, v3: Json) -> (r: Json)
    ensures
        r@ == JsonView::Object(seq![(k1@, v1@), (k2@, v2@), (k3@, v3@)]),
{
    let mut members: Vec<(String, Json)> = Vec::new();
    members.push((k1.to_owned(), v1));
    members.push((k2.to_owned(), v2));
    members.push((k3.to_owned(), v3));
    assert(members_view(members@) =~= seq![(k1@, v1@), (k2@, v2@), (k3@, v3@)]);
    Json::Object(members)
}

/// The array with one item.
pub fn array1(item: Json) -> (r: Json)
    ensures
        r@ == JsonView::Array(seq![item@]),
{
    let mut items: Vec<Json> = Vec::new();
    items.push(item);
    assert(items_view(items@) =~= seq![item@]);
    Json::Array(items)
}

// ---------------------------------------------------------------------------
// Reading and writing text
// ---------------------------------------------------------------------------

/// `serde_json::Value`, which the calls below pass on.
#[verifier::external_type_specification]
#[verifier::external_body]
pub struct ExValue(serde_json::Value);

/// What `serde_json::from_str::<Value>` reads from a text; nothing where it reports an error.
pub uninterp spec fn json_parsed(text: Seq<char>) -> Option<JsonView>;

/// What `serde_json::to_string` writes for a value.
pub uninterp spec fn json_text(value: JsonView) -> Seq<char>;

/// What `serde_json::to_string_pretty` writes for a value.
pub uninterp spec fn json_pretty(value: JsonView) -> Seq<char>;

/// The value nests at most `depth` arrays and objects, its numbers are integers from -2^63 to
/// below 2^64, and the keys of each object ascend.
pub open spec fn plain(value: JsonView, depth: nat) -> bool
    decreases value,
{
    match value {
        JsonView::Number(n) => exists|k: int|
            -0x8000_0000_0000_0000 <= k < 0x1_0000_0000_0000_0000 && n == #[trigger] decimal_int(k),
        JsonView::Array(items) => depth > 0 && forall|i: int|
            0 <= i < items.len() ==> plain(#[trigger] items[i], (depth - 1) as nat),
        JsonView::Object(members) => {
            &&& depth > 0
            &&& forall|i: int|
                0 <= i < members.len() ==> plain((#[trigger] members[i]).1, (depth - 1) as nat)
            &&& forall|i: int, j: int|
                0 <= i < j < members.len() ==> text_less(
                    (#[trigger] members[i]).0,
                    (#[trigger] members[j]).0,
                )
        },
        _ => true,
    }
}

/// Copies a `serde_json::Value` variant by variant; a number by what its `to_string` writes.
#[verifier::external_body]
fn json_of_value(value: serde_json::Value) -> (json: Json) {
    match value {
        serde_json::Value::Null => Json::Null,
        serde_json::Value::Bool(b) => Json::Bool(b),
        serde_json::Value::Number(n) => Json::Number(n.to_string()),
        serde_json::Value::String(s) => Json::Str(s),
        serde_json::Value::Array(items) => {
            Json::Array(items.into_iter().map(json_of_value).collect())
        },
        serde_json::Value::Object(map) => {
            Json::Object(map.into_iter().map(|(k, v)| (k, json_of_value(v))).collect())
        },
    }
}

/// Copies a value into a `serde_json::Value` variant by variant; a text that `serde_json` does
/// not read as a number becomes null.
#[verifier::external_body]
fn value_of_json(json: &Json) -> (value: serde_json::Value) {
    match json {
        Json::Null => serde_json::Value::Null,
        Json::Bool(b) => serde_json::Value::Bool(*b),
        Json::Number(n) => n.parse().map_or(serde_json::Value::Null, serde_json::Value::Number),
        Json::Str(s) => serde_json::Value::String(s.clone()),
        Json::Array(items) => serde_json::Value::Array(items.iter().map(value_of_json).collect()),
        Json::Object(members) => serde_json::Value::Object(
            members.iter().map(|m| (m.0.clone(), value_of_json(&m.1))).collect(),
        ),
    }
}

/// Calls `serde_json::from_str::<Value>`: a value where the text is one JSON value, nothing
/// where the call reports an error. Which texts those are is left to the name.
#[verifier::external_body]
pub(crate) fn parse(text: &str) -> (r: Option<Json>)
    ensures
        match r {
            Some(v) => json_parsed(text@) == Some(v@),
            None => json_parsed(text@) is None,
        },
{
    serde_json::from_str::<serde_json::Value>(text).ok().map(json_of_value)
}

/// Calls `serde_json::to_string`. Read again with `serde_json::from_str`, the text gives back a
/// value of integers and ascending keys that nests at most 127 arrays and objects, which is as deep
/// as that call reads.
#[verifier::external_body]
pub(crate) fn render(value: &Json) -> (text: String)
    ensures
        text@ == json_text(value@),
        plain(value@, 127) ==> json_parsed(text@) == Some(value@),
{
    serde_json::to_string(&value_of_json(value)).unwrap_or_default()
}

/// Calls `serde_json::to_string_pretty`.
#[verifier::external_body]
pub(crate) fn render_pretty(value: &Json) -> (text: String)
    ensures
        text@ == json_pretty(value@),
{
    serde_json::to_string_pretty(&value_of_json(value)).unwrap_or_default()
}

} // verus!
