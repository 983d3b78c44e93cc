//! Results in short, for people and for the model.

use crate::json::{json_parsed, json_pretty, object2, object3, parse, render_pretty};
use crate::text::{before, chars_of, decimal, opt_text, same_text, text_of, trim, trim_chars};
use crate::types::json_opt;
use crate::value::{group_json_view, items_view, members_view, Json, JsonView};
use vstd::prelude::*;

verus! {

broadcast use group_json_view;

/// The first `max` characters of a text.
pub open spec fn truncated(s: Seq<char>, max: nat) -> Seq<char> {
    if s.len() <= max {
        s
    } else {
        s.take(max as int)
    }
}

/// The first `max_chars` characters of a text.
pub fn truncate_str(s: &str, max_chars: usize) -> (r: String)
    ensures
        r@ == truncated(s@, max_chars as nat),
{
    let chars = chars_of(s);
    if chars.len() <= max_chars {
        s.to_owned()
    } else {
        text_of(before(chars.as_slice(), max_chars))
    }
}

/// A result of at most two hundred characters, with a note where it was cut.
pub fn summarize_result(result: &str) -> (r: String)
    ensures
        r@ == (if result@.len() <= 200 {
            result@
        } else {
            truncated(result@, 200) + "... (truncated)"@
        }),
{
    if chars_of(result).len() <= 200 {
        result.to_owned()
    } else {
        let mut r = truncate_str(result, 200);
        r.push_str("... (truncated)");
        r
    }
}

// ---------------------------------------------------------------------------
// Compact values
// ---------------------------------------------------------------------------

pub open spec fn heavy_key(key: Seq<char>) -> bool {
    ||| key == "content"@
    ||| key == "body"@
    ||| key == "html"@
    ||| key == "markdown"@
    ||| key == "raw"@
    ||| key == "text"@
    ||| key == "full_text"@
}

pub open spec fn first_keys(members: Seq<(Seq<char>, JsonView)>, count: nat) -> Seq<JsonView> {
    let n = if members.len() < count {
        members.len()
    } else {
        count
    };
    Seq::new(n, |i: int| JsonView::Str(members[i].0))
}

/// What is left of a value below the greatest depth: a short text, or the outline of a list or
/// an object.
pub open spec fn outline(value: JsonView) -> JsonView {
    match value {
        JsonView::Str(s) => JsonView::Str(truncated(s, 160)),
        JsonView::Array(items) => JsonView::Object(
            seq![
                ("kind"@, JsonView::Str("array"@)),
                ("len"@, JsonView::Number(decimal(items.len()))),
            ],
        ),
        JsonView::Object(members) => JsonView::Object(
            seq![
                ("keys"@, JsonView::Array(first_keys(members, 12))),
                ("kind"@, JsonView::Str("object"@)),
            ],
        ),
        other => other,
    }
}

/// A text under a key that tends to be long.
pub open spec fn text_preview(s: Seq<char>) -> JsonView {
    JsonView::Object(
        seq![
            ("length"@, JsonView::Number(decimal(s.len()))),
            ("preview"@, JsonView::Str(truncated(s, 240))),
            ("truncated"@, JsonView::Bool(s.len() > 240)),
        ],
    )
}

pub open spec fn compact_items(items: Seq<JsonView>, depth: nat) -> Seq<JsonView>
    decreases 5 - depth, 1 + items.len(),
{
    if items.len() == 0 || depth > 4 {
        Seq::empty()
    } else {
        compact_items(items.drop_last(), depth).push(compact(items.last(), depth))
    }
}

pub open spec fn compact_members(members: Seq<(Seq<char>, JsonView)>, depth: nat) -> Seq<
    (Seq<char>, JsonView),
>
    decreases 5 - depth, 1 + members.len(),
{
    if members.len() == 0 || depth > 4 {
        Seq::empty()
    } else {
        let (key, value) = members.last();
        compact_members(members.drop_last(), depth).push(
            (
                key,
                match value {
                    JsonView::Str(s) if heavy_key(key) => text_preview(s),
                    _ => compact(value, depth),
                },
            ),
        )
    }
}

/// A value in short: texts of at most four hundred characters, lists of at most eight items,
/// four levels deep.
pub open spec fn compact(value: JsonView, depth: nat) -> JsonView
    decreases 5 - depth, 0nat,
{
    if depth >= 4 {
        outline(value)
    } else {
        match value {
            JsonView::Str(s) => JsonView::Str(truncated(s, 400)),
            JsonView::Array(items) => if items.len() > 8 {
                JsonView::Object(
                    seq![
                        ("items"@, JsonView::Array(compact_items(items.take(8), depth + 1))),
                        ("total"@, JsonView::Number(decimal(items.len()))),
                        ("truncated"@, JsonView::Bool(true)),
                    ],
                )
            } else {
                JsonView::Array(compact_items(items, depth + 1))
            },
            JsonView::Object(members) => JsonView::Object(compact_members(members, depth + 1)),
            other => other,
        }
    }
}

fn is_heavy_key(key: &str) -> (r: bool)
    ensures
        r == heavy_key(key@),
{
    same_text(key, "content") || same_text(key, "body") || same_text(key, "html") || same_text(
        key,
        "markdown",
    ) || same_text(key, "raw") || same_text(key, "text") || same_text(key, "full_text")
}

fn first_keys_of(members: &Vec<(String, Json)>) -> (r: Vec<Json>)
    ensures
        items_view(r@) == first_keys(members_view(members@), 12),
{
    let n: usize = if members.len() < 12 {
        members.len()
    } else {
        12
    };
    let ghost all = first_keys(members_view(members@), 12);
    let mut r: Vec<Json> = Vec::new();
    let mut i: usize = 0;
    while i < n
        invariant
            i <= n <= members.len(),
            all == first_keys(members_view(members@), 12),
            n == all.len(),
            items_view(r@) == all.take(i as int),
        decreases n - i,
    {
        let ghost so_far = items_view(r@);
        let key = Json::text(members[i].0.as_str());
        assert(key@ == all[i as int]);
        r.push(key);
        assert(items_view(r@) =~= so_far.push(key@));
        assert(items_view(r@) =~= all.take(i + 1));
        i += 1;
    }
    assert(items_view(r@) =~= all);
    r
}

fn outline_of(value: &Json) -> (r: Json)
    ensures
        r@ == outline(value@),
{
    match value {
        Json::Str(s) => Json::Str(truncate_str(s.as_str(), 160)),
        Json::Array(items) => {
            assert(items_view(items@).len() == items.len());
            object2("kind", Json::text("array"), "len", Json::number(items.len() as u64))
        },
        Json::Object(members) => {
            let keys = first_keys_of(members);
            object2("keys", Json::Array(keys), "kind", Json::text("object"))
        },
        _ => value.clone(),
    }
}

fn text_preview_of(s: &str) -> (r: Json)
    ensures
        r@ == text_preview(s@),
{
    let n = chars_of(s).len();
    object3(
        "length",
        Json::number(n as u64),
        "preview",
        Json::Str(truncate_str(s, 240)),
        "truncated",
        Json::Bool(n > 240),
    )
}

/// A value in short.
pub fn compact_json_value(value: &Json, depth: usize) -> (r: Json)
    ensures
        r@ == compact(value@, depth as nat),
    decreases
        if depth <= 4 {
            5 - depth
        } else {
            0
        },
        0nat,
{
    if depth >= 4 {
        return outline_of(value);
    }
    match value {
        Json::Str(s) => Json::Str(truncate_str(s.as_str(), 400)),
        Json::Array(items) => {
            let n: usize = if items.len() > 8 {
                8
            } else {
                items.len()
            };
            let ghost views = items_view(items@).take(n as int);
            let mut list: Vec<Json> = Vec::new();
            let mut i: usize = 0;
            assert(items_view(list@) =~= Seq::empty());
            while i < n
                invariant
                    i <= n <= items.len(),
                    depth < 4,
                    views == items_view(items@).take(n as int),
                    items_view(list@) == compact_items(views.take(i as int), (depth + 1) as nat),
                decreases n - i,
            {
                assert(views.take(i + 1).drop_last() =~= views.take(i as int));
                let ghost so_far = items_view(list@);
                let item = compact_json_value(&items[i], depth + 1);
                list.push(item);
                assert(items_view(list@) =~= so_far.push(item@));
                i += 1;
            }
            assert(views.take(n as int) =~= views);
            if items.len() > 8 {
                object3(
                    "items",
                    Json::Array(list),
                    "total",
                    Json::number(items.len() as u64),
                    "truncated",
                    Json::Bool(true),
                )
            } else {
                assert(views =~= items_view(items@));
                Json::Array(list)
            }
        },
        Json::Object(members) => {
            let list = compact_members_of(members, depth + 1);
            Json::Object(list)
        },
        _ => value.clone(),
    }
}

fn compact_members_of(members: &Vec<(String, Json)>, depth: usize) -> (r: Vec<(String, Json)>)
    requires
        depth <= 4,
    ensures
        members_view(r@) == compact_members(members_view(members@), depth as nat),
    decreases 5 - depth, 1nat,
{
    let ghost views = members_view(members@);
    let mut list: Vec<(String, Json)> = Vec::new();
    let mut i: usize = 0;
    assert(members_view(list@) =~= Seq::empty());
    while i < members.len()
        invariant
            i <= members.len(),
            depth <= 4,
            views == members_view(members@),
            members_view(list@) == compact_members(views.take(i as int), depth as nat),
        decreases members.len() - i,
    {
        assert(views.take(i + 1).drop_last() =~= views.take(i as int));
        let ghost so_far = members_view(list@);
        let key = members[i].0.clone();
        let short = match &members[i].1 {
            Json::Str(s) => if is_heavy_key(key.as_str()) {
                text_preview_of(s.as_str())
            } else {
                compact_json_value(&members[i].1, depth)
            },
            _ => compact_json_value(&members[i].1, depth),
        };
        let member = (key, short);
        list.push(member);
        assert(members_view(list@) =~= so_far.push((member.0@, member.1@)));
        i += 1;
    }
    assert(views.take(views.len() as int) =~= views);
    list
}

// ---------------------------------------------------------------------------
// Results of scheduled skills
// ---------------------------------------------------------------------------

/// How the result of a scheduled skill is shown: as it is, or reworded by the model, or in a form
/// that needs no model.
pub struct SkillResultPresentation {
    pub direct_text: Option<String>,
    pub llm_payload: Option<String>,
    pub fallback_text: String,
}

pub struct PresentationView {
    pub direct_text: Option<Seq<char>>,
    pub llm_payload: Option<Seq<char>>,
    pub fallback_text: Seq<char>,
}

impl View for SkillResultPresentation {
    type V = PresentationView;

    open spec fn view(&self) -> PresentationView {
        PresentationView {
            direct_text: opt_text(self.direct_text),
            llm_payload: opt_text(self.llm_payload),
            fallback_text: self.fallback_text@,
        }
    }
}

pub open spec fn raw_result(skill: Seq<char>, output: Seq<char>) -> Seq<char> {
    "["@ + skill + "] 定时任务执行完成:\n\n"@ + truncated(output, 4000)
}

pub const DEFAULT_INSTRUCTION: &'static str = "请把结果整理成清晰、简洁、用户可读的回复，不要编造未提供的信息。";

/// How the model is asked to reword a result.
pub open spec fn instruction(value: JsonView) -> Seq<char> {
    match value.str_at("instruction"@) {
        Some(text) if trim(text).len() > 0 => trim(text),
        _ => DEFAULT_INSTRUCTION@,
    }
}

/// The members but for `raw_data`, each in short.
pub open spec fn compact_result(members: Seq<(Seq<char>, JsonView)>) -> Seq<
    (Seq<char>, JsonView),
>
    decreases members.len(),
{
    if members.len() == 0 {
        Seq::empty()
    } else if members.last().0 == "raw_data"@ {
        compact_result(members.drop_last())
    } else {
        compact_result(members.drop_last()).push((members.last().0, compact(members.last().1, 0)))
    }
}

/// What the model gets to reword.
pub open spec fn payload(value: JsonView) -> JsonView {
    match value.get("summary_data"@) {
        Some(summary) => JsonView::Object(
            seq![
                ("instruction"@, JsonView::Str(instruction(value))),
                ("summary_data"@, compact(summary, 0)),
            ],
        ),
        None => JsonView::Object(compact_result(value->Object_0)),
    }
}

/// How a result is shown, once its text was read as JSON with result `parsed`: a display text as
/// it is, other objects by the model, anything else by the model as raw text.
pub open spec fn presentation(
    skill: Seq<char>,
    output: Seq<char>,
    parsed: Option<JsonView>,
) -> PresentationView {
    match parsed {
        Some(JsonView::Object(members)) => {
            let value = JsonView::Object(members);
            let shown = match value.str_at("display_text"@) {
                Some(text) => trim(text),
                None => Seq::empty(),
            };
            if shown.len() > 0 {
                PresentationView {
                    direct_text: Some(shown),
                    llm_payload: None,
                    fallback_text: shown,
                }
            } else {
                PresentationView {
                    direct_text: None,
                    llm_payload: Some(truncated(json_pretty(payload(value)), 16000)),
                    fallback_text: match value.get("summary_data"@) {
                        Some(summary) => "["@ + skill
                            + "] 定时任务执行完成（摘要整理失败，以下为结构化摘要）:\n\n"@
                            + truncated(json_pretty(compact(summary, 0)), 4000),
                        None => raw_result(skill, output),
                    },
                }
            }
        },
        _ => PresentationView {
            direct_text: None,
            llm_payload: Some(truncated(output, 4000)),
            fallback_text: raw_result(skill, output),
        },
    }
}

fn raw_result_of(skill: &str, output: &str) -> (r: String)
    ensures
        r@ == raw_result(skill@, output@),
{
    let mut r = "[".to_owned();
    r.push_str(skill);
    r.push_str("] 定时任务执行完成:\n\n");
    r.push_str(truncate_str(output, 4000).as_str());
    r
}

fn instruction_of(value: &Json) -> (r: String)
    ensures
        r@ == instruction(value@),
{
    if let Some(text) = value.str_at("instruction") {
        let chars = chars_of(text);
        let t = trim_chars(chars.as_slice());
        if t.len() > 0 {
            return text_of(t);
        }
    }
    DEFAULT_INSTRUCTION.to_owned()
}

fn compact_result_of(members: &Vec<(String, Json)>) -> (r: Vec<(String, Json)>)
    ensures
        members_view(r@) == compact_result(members_view(members@)),
{
    let ghost views = members_view(members@);
    let mut list: Vec<(String, Json)> = Vec::new();
    let mut i: usize = 0;
    assert(members_view(list@) =~= Seq::empty());
    while i < members.len()
        invariant
            i <= members.len(),
            views == members_view(members@),
            members_view(list@) == compact_result(views.take(i as int)),
        decreases members.len() - i,
    {
        assert(views.take(i + 1).drop_last() =~= views.take(i as int));
        if !same_text(members[i].0.as_str(), "raw_data") {
            let ghost so_far = members_view(list@);
            let member = (members[i].0.clone(), compact_json_value(&members[i].1, 0));
            list.push(member);
            assert(members_view(list@) =~= so_far.push((member.0@, member.1@)));
        }
        i += 1;
    }
    assert(views.take(views.len() as int) =~= views);
    list
}

/// How a result is shown, given what its text was read as.
pub fn present_skill_result(skill_name: &str, output: &str, parsed: Option<Json>) -> (r:
    SkillResultPresentation)
    ensures
        r@ == presentation(skill_name@, output@, json_opt(parsed)),
{
    let fallback_text = raw_result_of(skill_name, output);
    let value = match parsed {
        Some(value) => value,
        None => {
            return SkillResultPresentation {
                direct_text: None,
                llm_payload: Some(truncate_str(output, 4000)),
                fallback_text,
            };
        },
    };
    let members = match &value {
        Json::Object(members) => members,
        _ => {
            return SkillResultPresentation {
                direct_text: None,
                llm_payload: Some(truncate_str(output, 4000)),
                fallback_text,
            };
        },
    };
    if let Some(text) = value.str_at("display_text") {
        let chars = chars_of(text);
        let shown = trim_chars(chars.as_slice());
        if shown.len() > 0 {
            let shown = text_of(shown);
            return SkillResultPresentation {
                direct_text: Some(shown.clone()),
                llm_payload: None,
                fallback_text: shown,
            };
        }
    }
    match value.get("summary_data") {
        Some(summary) => {
            let short = compact_json_value(summary, 0);
            let mut fallback = "[".to_owned();
            fallback.push_str(skill_name);
            fallback.push_str("] 定时任务执行完成（摘要整理失败，以下为结构化摘要）:\n\n");
            fallback.push_str(truncate_str(render_pretty(&short).as_str(), 4000).as_str());
            let source = object2(
                "instruction",
                Json::Str(instruction_of(&value)),
                "summary_data",
                short,
            );
            SkillResultPresentation {
                direct_text: None,
                llm_payload: Some(truncate_str(render_pretty(&source).as_str(), 16000)),
                fallback_text: fallback,
            }
        },
        None => {
            let source = Json::Object(compact_result_of(members));
            SkillResultPresentation {
                direct_text: None,
                llm_payload: Some(truncate_str(render_pretty(&source).as_str(), 16000)),
                fallback_text,
            }
        },
    }
}

/// How the result of a scheduled skill is shown.
pub fn prepare_skill_result_for_presentation(skill_name: &str, output: &str) -> (r:
    SkillResultPresentation)
    ensures
        r@ == presentation(skill_name@, output@, json_parsed(output@)),
{
    let parsed = parse(output);
    present_skill_result(skill_name, output, parsed)
}

} // verus!
