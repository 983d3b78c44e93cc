//! The JSON value type and its mathematical model.

use vstd::prelude::*;

verus! {

/// A JSON value as mathematics: numbers by their text, objects as their members in order.
pub enum JsonView {
    Null,
    Bool(bool),
    Number(Seq<char>),
    Str(Seq<char>),
    Array(Seq<JsonView>),
    Object(Seq<(Seq<char>, JsonView)>),
}

/// A JSON value. A number is held as the text that writes it; the members of an object stand
/// in the order of their keys.
pub enum Json {
    Null,
    Bool(bool),
    Number(String),
    Str(String),
    Array(Vec<Json>),
    Object(Vec<(String, Json)>),
}

/// The views of a run of values, in order.
pub open spec fn items_view(items: Seq<Json>) -> Seq<JsonView>
    decreases items,
{
    if items.len() == 0 {
        Seq::empty()
    } else {
        items_view(items.drop_last()).push(json_view(items.last()))
    }
}

/// The views of the members of an object, in order.
pub open spec fn members_view(members: Seq<(String, Json)>) -> Seq<(Seq<char>, JsonView)>
    decreases members,
{
    if members.len() == 0 {
        Seq::empty()
    } else {
        members_view(members.drop_last()).push((members.last().0@, json_view(members.last().1)))
    }
}

pub open spec fn json_view(v: Json) -> JsonView
    decreases v,
{
    match v {
        Json::Null => JsonView::Null,
        Json::Bool(b) => JsonView::Bool(b),
        Json::Number(n) => JsonView::Number(n@),
        Json::Str(s) => JsonView::Str(s@),
        Json::Array(items) => JsonView::Array(items_view(items@)),
        Json::Object(members) => JsonView::Object(members_view(members@)),
    }
}

impl View for Json {
    type V = JsonView;

    open spec fn view(&self) -> JsonView {
        json_view(*self)
    }
}

pub broadcast proof fn lemma_items_view_len(items: Seq<Json>)
    ensures
        (#[trigger] items_view(items)).len() == items.len(),
    decreases items.len(),
{
    if items.len() > 0 {
        lemma_items_view_len(items.drop_last());
    }
}

pub broadcast proof fn lemma_items_view_index(items: Seq<Json>, i: int)
    requires
        0 <= i < items.len(),
    ensures
        (#[trigger] items_view(items)[i]) == items[i]@,
    decreases items.len(),
{
    lemma_items_view_len(items.drop_last());
    if i < items.len() - 1 {
        lemma_items_view_index(items.drop_last(), i);
    }
}

pub broadcast proof fn lemma_members_view_len(members: Seq<(String, Json)>)
    ensures
        (#[trigger] members_view(members)).len() == members.len(),
    decreases members.len(),
{
    if members.len() > 0 {
        lemma_members_view_len(members.drop_last());
    }
}

pub broadcast proof fn lemma_members_view_index(members: Seq<(String, Json)>, i: int)
    requires
        0 <= i < members.len(),
    ensures
        (#[trigger] members_view(members)[i]) == (members[i].0@, members[i].1@),
    decreases members.len(),
{
    lemma_members_view_len(members.drop_last());
    if i < members.len() - 1 {
        lemma_members_view_index(members.drop_last(), i);
    }
}

pub broadcast group group_json_view {
    lemma_items_view_len,
    lemma_items_view_index,
    lemma_members_view_len,
    lemma_members_view_index,
}

} // verus!
