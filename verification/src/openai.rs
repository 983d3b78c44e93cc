//! Tool calls in the text of a model's answer, and the OpenAI-style protocol.

use crate::json::{insert_member, json_parsed, object1, parse, set_member};
use crate::text::{
    after, before, char_is_space, chars_equal, chars_of, chars_start_with, contains, decimal, decimal_int,
    decimal_int_text, decimal_text, integer, integer_of, is_space, join, join_texts, law_decimal_reads_back, lemma_split,
    lemma_trim_start_len, lower, lower_chars, opt_text, part,
    slices_view, split, split_chars, split_fold, split_fold_chars, starts_with, strip_prefix,
    strip_prefix_chars, text_of, trim, trim_chars, trim_end_of, trim_end_of_chars, trim_start,
    trim_start_chars, trim_start_of, trim_start_of_chars, texts_view, words, words_of,
};
use crate::types::{calls_view, json_opt, no_members, or_empty, ToolCallRequest, ToolCallView};
use crate::value::{group_json_view, members_view, Json, JsonView};
use vstd::prelude::*;

verus! {

broadcast use group_json_view;

pub struct OpenAIProvider;

// ---------------------------------------------------------------------------
// Calls out of blocks
// ---------------------------------------------------------------------------

/// The id of the call that is found as number `index` in a text.
pub open spec fn text_call_id(index: nat) -> Seq<char> {
    "text_call_"@ + decimal(index)
}

pub open spec fn text_call(index: nat, name: Seq<char>, arguments: JsonView) -> ToolCallView {
    ToolCallView { id: text_call_id(index), name, arguments, thought_signature: None }
}

fn make_call(index: usize, name: String, arguments: Json) -> (r: ToolCallRequest)
    ensures
        r@ == text_call(index as nat, name@, arguments@),
{
    let mut id = "text_call_".to_owned();
    id.push_str(decimal_text(index as u64).as_str());
    ToolCallRequest { id, name, arguments, thought_signature: None }
}

/// The call that a JSON block asks for: `{name, arguments}`.
pub open spec fn standard_call(value: JsonView, index: nat) -> ToolCallView {
    text_call(index, value.str_or("name"@, "unknown"@), or_empty(value.get("arguments"@)))
}

pub open spec fn first_of(a: Option<JsonView>, b: Option<JsonView>) -> Option<JsonView> {
    match a {
        Some(v) => Some(v),
        None => b,
    }
}

pub open spec fn as_text_or(value: Option<JsonView>, default: Seq<char>) -> Seq<char> {
    match value {
        Some(JsonView::Str(s)) => s,
        _ => default,
    }
}

/// As `standard_call`, where the names `tool` and `args` stand in for missing ones.
pub open spec fn lenient_call(value: JsonView, index: nat) -> ToolCallView {
    text_call(
        index,
        as_text_or(first_of(value.get("name"@), value.get("tool"@)), "unknown"@),
        or_empty(first_of(value.get("arguments"@), value.get("args"@))),
    )
}

/// A raw value as JSON, or as the text itself where it is no JSON.
pub open spec fn value_or_text(parsed: Option<JsonView>, raw: Seq<char>) -> JsonView {
    match parsed {
        Some(v) => v,
        None => JsonView::Str(raw),
    }
}

/// The pairs `<parameter=name>value</parameter>` of a block, in order, names and values trimmed.
/// A pair without a name is passed over, and one without an end closes the list.
pub open spec fn assigned_parameters(scan: Seq<char>) -> Seq<(Seq<char>, Seq<char>)>
    decreases scan.len(),
{
    match split_fold(scan, "<parameter="@) {
        None => Seq::empty(),
        Some((_, after_param)) => match split(after_param, ">"@) {
            None => Seq::empty(),
            Some((name, value_text)) => {
                proof {
                    reveal_strlit("<parameter=");
                    lemma_split(scan, "<parameter="@);
                    lemma_split(after_param, ">"@);
                    lemma_split(value_text, "</parameter>"@);
                }
                if trim(name).len() == 0 {
                    assigned_parameters(value_text)
                } else {
                    match split_fold(value_text, "</parameter>"@) {
                        None => Seq::empty(),
                        Some((value, next)) => seq![(trim(name), trim(value))]
                            + assigned_parameters(next),
                    }
                }
            },
        },
    }
}

/// The members that pairs make where each value is read as JSON, later pairs replacing
/// earlier ones.
pub open spec fn read_members(pairs: Seq<(Seq<char>, Seq<char>)>) -> Seq<(Seq<char>, JsonView)>
    decreases pairs.len(),
{
    if pairs.len() == 0 {
        Seq::empty()
    } else {
        insert_member(
            read_members(pairs.drop_last()),
            pairs.last().0,
            value_or_text(json_parsed(pairs.last().1), pairs.last().1),
        )
    }
}

/// The members that pairs make where each value stays text.
pub open spec fn text_members(pairs: Seq<(Seq<char>, Seq<char>)>) -> Seq<(Seq<char>, JsonView)>
    decreases pairs.len(),
{
    if pairs.len() == 0 {
        Seq::empty()
    } else {
        insert_member(
            text_members(pairs.drop_last()),
            pairs.last().0,
            JsonView::Str(pairs.last().1),
        )
    }
}

/// The name and the parameters of a block `<function=name> .. </function>`.
pub open spec fn function_block(block: Seq<char>) -> Option<
    (Seq<char>, Seq<(Seq<char>, Seq<char>)>),
> {
    match split_fold(trim(block), "<function="@) {
        None => None,
        Some((_, after_func)) => match split(after_func, ">"@) {
            None => None,
            Some((name, body)) => if trim(name).len() == 0 {
                None
            } else {
                let params = match split_fold(body, "</function>"@) {
                    Some((head, _)) => head,
                    None => body,
                };
                Some((trim(name), assigned_parameters(params)))
            },
        },
    }
}

pub open spec fn function_block_call(block: Seq<char>, index: nat) -> Option<ToolCallView> {
    match function_block(block) {
        Some((name, pairs)) => Some(
            text_call(index, name, JsonView::Object(read_members(pairs))),
        ),
        None => None,
    }
}

/// The parameter that starts behind `<parameter`: its name, its value and what follows it.
pub open spec fn parameter_at(after_tag: Seq<char>) -> Option<(Seq<char>, Seq<char>, Seq<char>)> {
    match (split(after_tag, "name=\""@), split(after_tag, ">"@)) {
        (Some((_, after_name)), Some((_, value_text))) => match (
            split(after_name, "\""@),
            split_fold(value_text, "</parameter>"@),
        ) {
            (Some((name, _)), Some((value, next))) => Some((name, value, next)),
            _ => None,
        },
        _ => None,
    }
}

pub proof fn lemma_parameter_at(after_tag: Seq<char>)
    ensures
        match parameter_at(after_tag) {
            Some((_, _, next)) => next.len() < after_tag.len(),
            None => true,
        },
{
    reveal_strlit(">");
    lemma_split(after_tag, "name=\""@);
    lemma_split(after_tag, ">"@);
    match split(after_tag, ">"@) {
        Some((_, value_text)) => lemma_split(value_text, "</parameter>"@),
        None => {},
    }
}

/// The pairs `<parameter name="name">value</parameter>` of a block, in order and untrimmed.
/// What cannot be read as a pair is passed over.
pub open spec fn named_parameters(scan: Seq<char>) -> Seq<(Seq<char>, Seq<char>)>
    decreases scan.len(),
{
    match split_fold(scan, "<parameter"@) {
        None => Seq::empty(),
        Some((_, after_tag)) => {
            proof {
                reveal_strlit("<parameter");
                lemma_split(scan, "<parameter"@);
                lemma_parameter_at(after_tag);
            }
            match parameter_at(after_tag) {
                Some((name, value, next)) => seq![(name, value)] + named_parameters(next),
                None => named_parameters(after_tag),
            }
        },
    }
}

// ---------------------------------------------------------------------------
// Arrow syntax
// ---------------------------------------------------------------------------

/// How many characters `s` has before white space, a comma or a closing brace.
pub open spec fn arrow_word_len(s: Seq<char>) -> nat
    decreases s.len(),
{
    if s.len() == 0 || is_space(s[0]) || s[0] == ',' || s[0] == '}' {
        0
    } else {
        1 + arrow_word_len(s.skip(1))
    }
}

/// How many characters `s` has before a comma or a closing brace.
pub open spec fn bare_len(s: Seq<char>) -> nat
    decreases s.len(),
{
    if s.len() == 0 || s[0] == ',' || s[0] == '}' {
        0
    } else {
        1 + bare_len(s.skip(1))
    }
}

pub open spec fn unquote(s: Seq<char>) -> Seq<char> {
    trim_end_of(trim_start_of(s, '"'), '"')
}

/// The value that stands behind an arrow: up to the closing quote, or one word.
pub open spec fn arrow_operand(text: Seq<char>) -> Option<Seq<char>> {
    let operand = trim(text);
    let quoted = match strip_prefix(operand, "\""@) {
        Some(rest) => match split(rest, "\""@) {
            Some((value, _)) => Some(value),
            None => None,
        },
        None => None,
    };
    match quoted {
        Some(value) => Some(value),
        None => {
            let word = operand.take(arrow_word_len(operand) as int);
            if word.len() > 0 {
                Some(unquote(word))
            } else {
                None
            }
        },
    }
}

/// The value in `key => value`; the arrow may also be written with an escaped angle bracket.
pub open spec fn arrow_value(text: Seq<char>, key: Seq<char>) -> Option<Seq<char>> {
    let plain = match split(text, key + " =>"@) {
        Some((_, tail)) => arrow_operand(tail),
        None => None,
    };
    match plain {
        Some(value) => Some(value),
        None => match split(text, key + " =\\u003e"@) {
            Some((_, tail)) => arrow_operand(tail),
            None => None,
        },
    }
}

/// Where the brace that opened `depth` levels up closes, from position `i` on.
pub open spec fn closing_brace(s: Seq<char>, i: int, depth: int) -> Option<int>
    decreases s.len() - i,
{
    if i < 0 || i >= s.len() {
        None
    } else if s[i] == '{' {
        closing_brace(s, i + 1, depth + 1)
    } else if s[i] == '}' {
        if depth == 1 {
            Some(i)
        } else {
            closing_brace(s, i + 1, depth - 1)
        }
    } else {
        closing_brace(s, i + 1, depth)
    }
}

/// The text inside the braces that `s` starts with.
pub open spec fn braced(s: Seq<char>) -> Option<Seq<char>> {
    if s.len() > 0 && s[0] == '{' {
        match closing_brace(s, 0, 0) {
            Some(end) => Some(trim(s.subrange(1, end))),
            None => None,
        }
    } else {
        None
    }
}

/// What `str::parse` reads as a floating-point number: nothing, or the text that
/// `serde_json::Number::from_f64` writes for it, which a number that is not finite lacks.
pub uninterp spec fn float_reading(text: Seq<char>) -> Option<Option<Seq<char>>>;

/// The value of an option, once it was tried as a floating-point number with result `reading`.
pub open spec fn option_value(value: Seq<char>, reading: Option<Option<Seq<char>>>) -> JsonView {
    if value.len() == 0 {
        JsonView::Bool(true)
    } else {
        match (integer(value), reading) {
            (Some(n), _) => JsonView::Number(decimal_int(n)),
            (None, Some(Some(number))) => JsonView::Number(number),
            (None, Some(None)) => JsonView::Str(value),
            (None, None) => if value == "true"@ {
                JsonView::Bool(true)
            } else if value == "false"@ {
                JsonView::Bool(false)
            } else {
                JsonView::Str(value)
            },
        }
    }
}

/// The options `--key word word ..` with their words; words before the first key are passed over.
pub open spec fn options(tokens: Seq<Seq<char>>) -> Seq<(Seq<char>, Seq<Seq<char>>)>
    decreases tokens.len(),
{
    if tokens.len() == 0 {
        Seq::empty()
    } else {
        let before = options(tokens.drop_last());
        match strip_prefix(tokens.last(), "--"@) {
            Some(key) => before.push((key, Seq::empty())),
            None => if before.len() == 0 {
                before
            } else {
                before.update(
                    before.len() - 1,
                    (before.last().0, before.last().1.push(tokens.last())),
                )
            },
        }
    }
}

/// The text of an option's words, without quotes and space around it.
pub open spec fn option_text(words: Seq<Seq<char>>) -> Seq<char> {
    trim(unquote(trim(join(words, " "@))))
}

pub open spec fn option_members(list: Seq<(Seq<char>, Seq<Seq<char>>)>) -> Seq<
    (Seq<char>, JsonView),
>
    decreases list.len(),
{
    if list.len() == 0 {
        Seq::empty()
    } else {
        let value = option_text(list.last().1);
        insert_member(
            option_members(list.drop_last()),
            list.last().0,
            option_value(value, float_reading(value)),
        )
    }
}

/// The arguments that `--key value` options make.
pub open spec fn dash_args(text: Seq<char>) -> JsonView {
    JsonView::Object(option_members(options(words(text))))
}

/// The arguments behind an arrow: braces around JSON members or options, or one bare value.
pub open spec fn arrow_arguments_at(tail: Seq<char>) -> Option<JsonView> {
    let operand = trim(tail);
    match braced(operand) {
        Some(inner) => match json_parsed("{"@ + inner + "}"@) {
            Some(value) => Some(value),
            None => Some(dash_args(inner)),
        },
        None => {
            let value = trim(operand.take(bare_len(operand) as int));
            if value.len() > 0 {
                Some(JsonView::Object(seq![("value"@, JsonView::Str(value))]))
            } else {
                None
            }
        },
    }
}

/// The arguments in `args => ..`, or else in `arguments => ..`.
pub open spec fn arrow_arguments(text: Seq<char>) -> JsonView {
    let first = match split(text, "args =>"@) {
        Some((_, tail)) => arrow_arguments_at(tail),
        None => None,
    };
    let second = match split(text, "arguments =>"@) {
        Some((_, tail)) => arrow_arguments_at(tail),
        None => None,
    };
    or_empty(first_of(first, second))
}

/// The text inside the braces around a block, where it has them.
pub open spec fn without_braces(block: Seq<char>) -> Seq<char> {
    let t = trim(block);
    if t.len() >= 2 && t[0] == '{' && t.last() == '}' {
        trim(t.subrange(1, t.len() - 1))
    } else {
        trim(t)
    }
}

/// The call that a bracket block asks for, once the block was read as JSON with result `parsed`.
pub open spec fn bracket_call(
    block: Seq<char>,
    index: nat,
    parsed: Option<JsonView>,
) -> Option<ToolCallView> {
    match parsed {
        Some(value) => Some(lenient_call(value, index)),
        None => {
            let inner = without_braces(block);
            let name = match arrow_value(inner, "tool"@) {
                Some(name) => Some(name),
                None => arrow_value(inner, "name"@),
            };
            match name {
                Some(name) => Some(text_call(index, name, arrow_arguments(inner))),
                None => None,
            }
        },
    }
}

// ---------------------------------------------------------------------------
// The passes over an answer
// ---------------------------------------------------------------------------

/// The call that a `<tool_call>` block asks for, once it was read as JSON with result `parsed`.
pub open spec fn tagged_call(
    block: Seq<char>,
    index: nat,
    parsed: Option<JsonView>,
) -> Option<ToolCallView> {
    match parsed {
        Some(value) => Some(standard_call(value, index)),
        None => function_block_call(block, index),
    }
}

/// Takes the `<tool_call>` blocks out of a text. A block that asks for no call stays in it.
pub open spec fn tagged_pass(rest: Seq<char>, index: nat) -> (Seq<char>, Seq<ToolCallView>)
    decreases rest.len(),
{
    match split(rest, "<tool_call>"@) {
        None => (rest, Seq::empty()),
        Some((head, tail)) => match split(tail, "</tool_call>"@) {
            None => (rest, Seq::empty()),
            Some((inner, next)) => {
                proof {
                    reveal_strlit("<tool_call>");
                    lemma_split(rest, "<tool_call>"@);
                    lemma_split(tail, "</tool_call>"@);
                }
                let block = trim(inner);
                match tagged_call(block, index, json_parsed(block)) {
                    Some(call) => {
                        let (text, calls) = tagged_pass(next, index + 1);
                        (head + text, seq![call] + calls)
                    },
                    None => {
                        let (text, calls) = tagged_pass(next, index);
                        (
                            head + ("<tool_call>"@ + inner + "</tool_call>"@) + text,
                            calls,
                        )
                    },
                }
            },
        },
    }
}

/// Takes the `[TOOL_CALL]` blocks out of a text, whether or not they ask for a call. A block
/// without an end runs to the end of the text.
pub open spec fn bracket_pass(rest: Seq<char>, index: nat) -> (Seq<char>, Seq<ToolCallView>)
    decreases rest.len(),
{
    match split_fold(rest, "[tool_call]"@) {
        None => (rest, Seq::empty()),
        Some((head, tail)) => match split_fold(tail, "[/tool_call]"@) {
            None => {
                let block = trim(tail);
                match bracket_call(block, index, json_parsed(block)) {
                    Some(call) => (head, seq![call]),
                    None => (head, Seq::empty()),
                }
            },
            Some((inner, next)) => {
                proof {
                    reveal_strlit("[tool_call]");
                    lemma_split(rest, "[tool_call]"@);
                    lemma_split(tail, "[/tool_call]"@);
                }
                let block = trim(inner);
                match bracket_call(block, index, json_parsed(block)) {
                    Some(call) => {
                        let (text, calls) = bracket_pass(next, index + 1);
                        (head + text, seq![call] + calls)
                    },
                    None => {
                        let (text, calls) = bracket_pass(next, index);
                        (head + text, calls)
                    },
                }
            },
        },
    }
}

/// The parameters that follow `[Called: name]`, and what stands behind their end.
pub open spec fn called_body(tail: Seq<char>) -> (Seq<char>, Seq<char>) {
    match split_fold(tail, "</minimax:tool_call>"@) {
        Some(parts) => parts,
        None => match split_fold(tail, "</invoke>"@) {
            Some(parts) => parts,
            None => (tail, Seq::empty()),
        },
    }
}

/// Takes the `[Called: name]` blocks out of a text.
pub open spec fn called_pass(rest: Seq<char>, index: nat) -> (Seq<char>, Seq<ToolCallView>)
    decreases rest.len(),
{
    match split_fold(rest, "[called:"@) {
        None => (rest, Seq::empty()),
        Some((head, tail)) => match split(tail, "]"@) {
            None => (rest, Seq::empty()),
            Some((name, after_name)) => {
                proof {
                    reveal_strlit("[called:");
                    lemma_split(rest, "[called:"@);
                    lemma_split(tail, "]"@);
                    lemma_split(after_name, "</minimax:tool_call>"@);
                    lemma_split(after_name, "</invoke>"@);
                }
                let (params, next) = called_body(after_name);
                if trim(name).len() > 0 {
                    let call = text_call(
                        index,
                        trim(name),
                        JsonView::Object(text_members(named_parameters(params))),
                    );
                    let (text, calls) = called_pass(next, index + 1);
                    (head + text, seq![call] + calls)
                } else {
                    let (text, calls) = called_pass(next, index);
                    (head + text, calls)
                }
            },
        },
    }
}

/// The invocation that starts behind `<invoke`: its name, its parameters and what follows it. A
/// closing `</minimax:tool_call>` belongs to the invocation.
pub open spec fn invocation_at(tail: Seq<char>) -> Option<(Seq<char>, Seq<char>, Seq<char>)> {
    match split(tail, "name=\""@) {
        None => None,
        Some((_, after_attr)) => match split(after_attr, "\""@) {
            None => None,
            Some((name, after_name)) => match split(after_name, ">"@) {
                None => None,
                Some((_, body)) => {
                    let (params, after_body) = match split_fold(body, "</invoke>"@) {
                        Some(parts) => parts,
                        None => (body, Seq::empty()),
                    };
                    let t = trim_start(after_body);
                    let next = if starts_with(lower(t), "</minimax:tool_call>"@) {
                        t.skip("</minimax:tool_call>"@.len() as int)
                    } else {
                        after_body
                    };
                    Some((trim(name), params, next))
                },
            },
        },
    }
}

pub proof fn lemma_invocation_at(tail: Seq<char>)
    ensures
        match invocation_at(tail) {
            Some((_, _, next)) => next.len() <= tail.len(),
            None => true,
        },
{
    lemma_split(tail, "name=\""@);
    match split(tail, "name=\""@) {
        Some((_, after_attr)) => {
            lemma_split(after_attr, "\""@);
            match split(after_attr, "\""@) {
                Some((_, after_name)) => {
                    lemma_split(after_name, ">"@);
                    match split(after_name, ">"@) {
                        Some((_, body)) => {
                            lemma_split(body, "</invoke>"@);
                            match split_fold(body, "</invoke>"@) {
                                Some((_, after_body)) => {
                                    lemma_trim_start_len(after_body);
                                },
                                None => {
                                    lemma_trim_start_len(Seq::empty());
                                },
                            }
                        },
                        None => {},
                    }
                },
                None => {},
            }
        },
        None => {},
    }
}

/// Takes the `<invoke name="..">` blocks out of a text. A tag that starts no invocation stays.
pub open spec fn invoke_pass(rest: Seq<char>, index: nat) -> (Seq<char>, Seq<ToolCallView>)
    decreases rest.len(),
{
    match split_fold(rest, "<invoke"@) {
        None => (rest, Seq::empty()),
        Some((head, tail)) => {
            proof {
                reveal_strlit("<invoke");
                lemma_split(rest, "<invoke"@);
                lemma_invocation_at(tail);
            }
            match invocation_at(tail) {
                None => {
                    let (text, calls) = invoke_pass(tail, index);
                    (rest.take((head.len() + "<invoke"@.len()) as int) + text, calls)
                },
                Some((name, params, next)) => if name.len() > 0 {
                    let call = text_call(
                        index,
                        name,
                        JsonView::Object(read_members(named_parameters(params))),
                    );
                    let (text, calls) = invoke_pass(next, index + 1);
                    (head + text, seq![call] + calls)
                } else {
                    let (text, calls) = invoke_pass(next, index);
                    (head + text, calls)
                },
            }
        },
    }
}

/// The tool calls in a text, and the text around them: each further form is looked for only
/// where the forms before it gave no call.
pub open spec fn text_tool_calls(content: Seq<char>) -> (Seq<char>, Seq<ToolCallView>) {
    let tagged = tagged_pass(content, 0);
    let bracket = if tagged.1.len() == 0 {
        bracket_pass(tagged.0, 0)
    } else {
        tagged
    };
    let called = if bracket.1.len() == 0 {
        called_pass(bracket.0, 0)
    } else {
        bracket
    };
    let invoked = if called.1.len() == 0 {
        invoke_pass(called.0, 0)
    } else {
        called
    };
    (trim(invoked.0), invoked.1)
}

/// Calls that are numbered in order from `index` on.
pub open spec fn numbered(calls: Seq<ToolCallView>, index: nat) -> bool {
    forall|i: int|
        0 <= i < calls.len() ==> (#[trigger] calls[i]).id == text_call_id((index + i) as nat)
}

/// Calls without a thought signature.
pub open spec fn unsigned(calls: Seq<ToolCallView>) -> bool {
    forall|i: int| 0 <= i < calls.len() ==> (#[trigger] calls[i]).thought_signature is None
}

proof fn lemma_numbered(call: ToolCallView, calls: Seq<ToolCallView>, index: nat)
    requires
        call.id == text_call_id(index),
        call.thought_signature is None,
        numbered(calls, index + 1),
        unsigned(calls),
    ensures
        numbered(seq![call] + calls, index),
        unsigned(seq![call] + calls),
{
    let all = seq![call] + calls;
    assert forall|i: int| 0 <= i < all.len() implies (
    #[trigger] all[i]).thought_signature is None by {
        if i > 0 {
            assert(all[i] == calls[i - 1]);
        }
    }
    assert forall|i: int| 0 <= i < all.len() implies (#[trigger] all[i]).id == text_call_id(
        (index + i) as nat,
    ) by {
        if i > 0 {
            assert(all[i] == calls[i - 1]);
        }
    }
}

/// The calls of a pass are numbered in order from the pass's first index, and unsigned.
proof fn lemma_tagged_ids(rest: Seq<char>, index: nat)
    ensures
        numbered(tagged_pass(rest, index).1, index),
        unsigned(tagged_pass(rest, index).1),
    decreases rest.len(),
{
    reveal_strlit("<tool_call>");
    lemma_split(rest, "<tool_call>"@);
    if let Some((_, tail)) = split(rest, "<tool_call>"@) {
        lemma_split(tail, "</tool_call>"@);
        if let Some((inner, next)) = split(tail, "</tool_call>"@) {
            let block = trim(inner);
            match tagged_call(block, index, json_parsed(block)) {
                Some(call) => {
                    lemma_tagged_ids(next, index + 1);
                    lemma_numbered(call, tagged_pass(next, index + 1).1, index);
                },
                None => lemma_tagged_ids(next, index),
            }
        }
    }
}

/// The calls of a pass are numbered in order from the pass's first index, and unsigned.
proof fn lemma_bracket_ids(rest: Seq<char>, index: nat)
    ensures
        numbered(bracket_pass(rest, index).1, index),
        unsigned(bracket_pass(rest, index).1),
    decreases rest.len(),
{
    reveal_strlit("[tool_call]");
    lemma_split(rest, "[tool_call]"@);
    if let Some((_, tail)) = split_fold(rest, "[tool_call]"@) {
        lemma_split(tail, "[/tool_call]"@);
        if let Some((inner, next)) = split_fold(tail, "[/tool_call]"@) {
            let block = trim(inner);
            match bracket_call(block, index, json_parsed(block)) {
                Some(call) => {
                    lemma_bracket_ids(next, index + 1);
                    lemma_numbered(call, bracket_pass(next, index + 1).1, index);
                },
                None => lemma_bracket_ids(next, index),
            }
        }
    }
}

/// The calls of a pass are numbered in order from the pass's first index, and unsigned.
proof fn lemma_called_ids(rest: Seq<char>, index: nat)
    ensures
        numbered(called_pass(rest, index).1, index),
        unsigned(called_pass(rest, index).1),
    decreases rest.len(),
{
    reveal_strlit("[called:");
    lemma_split(rest, "[called:"@);
    if let Some((_, tail)) = split_fold(rest, "[called:"@) {
        lemma_split(tail, "]"@);
        if let Some((name, after_name)) = split(tail, "]"@) {
            lemma_split(after_name, "</minimax:tool_call>"@);
            lemma_split(after_name, "</invoke>"@);
            let (params, next) = called_body(after_name);
            if trim(name).len() > 0 {
                let call = text_call(
                    index,
                    trim(name),
                    JsonView::Object(text_members(named_parameters(params))),
                );
                lemma_called_ids(next, index + 1);
                lemma_numbered(call, called_pass(next, index + 1).1, index);
            } else {
                lemma_called_ids(next, index);
            }
        }
    }
}

/// The calls of a pass are numbered in order from the pass's first index, and unsigned.
proof fn lemma_invoke_ids(rest: Seq<char>, index: nat)
    ensures
        numbered(invoke_pass(rest, index).1, index),
        unsigned(invoke_pass(rest, index).1),
    decreases rest.len(),
{
    reveal_strlit("<invoke");
    lemma_split(rest, "<invoke"@);
    if let Some((_, tail)) = split_fold(rest, "<invoke"@) {
        lemma_invocation_at(tail);
        match invocation_at(tail) {
            None => lemma_invoke_ids(tail, index),
            Some((name, params, next)) => if name.len() > 0 {
                let call = text_call(
                    index,
                    name,
                    JsonView::Object(read_members(named_parameters(params))),
                );
                lemma_invoke_ids(next, index + 1);
                lemma_numbered(call, invoke_pass(next, index + 1).1, index);
            } else {
                lemma_invoke_ids(next, index);
            },
        }
    }
}

/// The calls found in a text are numbered from zero in the order in which they stand, so no two
/// of them have the same id, and none of them has a thought signature.
pub proof fn law_call_ids(content: Seq<char>)
    ensures
        numbered(text_tool_calls(content).1, 0),
        unsigned(text_tool_calls(content).1),
        forall|i: int, j: int|
            0 <= i < j < text_tool_calls(content).1.len() ==> (
            #[trigger] text_tool_calls(content).1[i]).id != (
            #[trigger] text_tool_calls(content).1[j]).id,
{
    let tagged = tagged_pass(content, 0);
    lemma_tagged_ids(content, 0);
    lemma_bracket_ids(tagged.0, 0);
    let bracket = if tagged.1.len() == 0 {
        bracket_pass(tagged.0, 0)
    } else {
        tagged
    };
    lemma_called_ids(bracket.0, 0);
    let called = if bracket.1.len() == 0 {
        called_pass(bracket.0, 0)
    } else {
        bracket
    };
    lemma_invoke_ids(called.0, 0);
    let calls = text_tool_calls(content).1;
    assert forall|i: int, j: int| 0 <= i < j < calls.len() implies (#[trigger] calls[i]).id != (
    #[trigger] calls[j]).id by {
        if text_call_id(i as nat) == text_call_id(j as nat) {
            let prefix = "text_call_"@;
            assert(text_call_id(i as nat).skip(prefix.len() as int) =~= decimal(i as nat));
            assert(text_call_id(j as nat).skip(prefix.len() as int) =~= decimal(j as nat));
            law_decimal_reads_back(i as nat);
            law_decimal_reads_back(j as nat);
        }
    }
}

/// A text that holds none of the tags is handed back trimmed, with no call.
pub proof fn law_plain_text_has_no_calls(content: Seq<char>)
    requires
        !contains(lower(content), "[tool_call]"@),
        !contains(lower(content), "[called:"@),
        !contains(lower(content), "<invoke"@),
        !contains(content, "<tool_call>"@),
    ensures
        text_tool_calls(content) == (trim(content), Seq::<ToolCallView>::empty()),
{
}

// ---------------------------------------------------------------------------
// The executable passes
// ---------------------------------------------------------------------------

pub open spec fn pairs_view(pairs: Seq<(String, String)>) -> Seq<(Seq<char>, Seq<char>)> {
    pairs.map_values(|p: (String, String)| (p.0@, p.1@))
}

fn assigned_parameters_of(scan: &[char]) -> (r: Vec<(String, String)>)
    ensures
        pairs_view(r@) == assigned_parameters(scan@),
{
    let mut r: Vec<(String, String)> = Vec::new();
    let mut rest = scan;
    assert(pairs_view(r@) + assigned_parameters(rest@) =~= assigned_parameters(scan@));
    loop
        invariant
            pairs_view(r@) + assigned_parameters(rest@) == assigned_parameters(scan@),
        decreases rest@.len(),
    {
        proof {
            reveal_strlit("<parameter=");
            lemma_split(rest@, "<parameter="@);
        }
        let after_param = match split_fold_chars(rest, "<parameter=") {
            Some((_, tail)) => tail,
            None => {
                assert(pairs_view(r@) + assigned_parameters(rest@) =~= pairs_view(r@));
                return r;
            },
        };
        proof {
            lemma_split(after_param@, ">"@);
        }
        match split_chars(after_param, ">") {
            None => {
                assert(pairs_view(r@) + assigned_parameters(rest@) =~= pairs_view(r@));
                return r;
            },
            Some((name, value_text)) => {
                let name = trim_chars(name);
                if name.len() == 0 {
                    rest = value_text;
                } else {
                    proof {
                        lemma_split(value_text@, "</parameter>"@);
                    }
                    match split_fold_chars(value_text, "</parameter>") {
                        None => {
                            assert(pairs_view(r@) + assigned_parameters(rest@) =~= pairs_view(r@));
                            return r;
                        },
                        Some((value, next)) => {
                            let ghost so_far = pairs_view(r@);
                            let pair = (text_of(name), text_of(trim_chars(value)));
                            r.push(pair);
                            assert(pairs_view(r@) =~= so_far.push((pair.0@, pair.1@)));
                            assert(so_far + assigned_parameters(rest@) =~= pairs_view(r@)
                                + assigned_parameters(next@));
                            rest = next;
                        },
                    }
                }
            },
        }
    }
}

fn named_parameters_of(scan: &[char]) -> (r: Vec<(String, String)>)
    ensures
        pairs_view(r@) == named_parameters(scan@),
{
    let mut r: Vec<(String, String)> = Vec::new();
    let mut rest = scan;
    assert(pairs_view(r@) + named_parameters(rest@) =~= named_parameters(scan@));
    loop
        invariant
            pairs_view(r@) + named_parameters(rest@) == named_parameters(scan@),
        decreases rest@.len(),
    {
        proof {
            reveal_strlit("<parameter");
            lemma_split(rest@, "<parameter"@);
        }
        let after_tag = match split_fold_chars(rest, "<parameter") {
            Some((_, tail)) => tail,
            None => {
                assert(pairs_view(r@) + named_parameters(rest@) =~= pairs_view(r@));
                return r;
            },
        };
        proof {
            lemma_parameter_at(after_tag@);
        }
        if let (Some((_, after_name)), Some((_, value_text))) = (
            split_chars(after_tag, "name=\""),
            split_chars(after_tag, ">"),
        ) {
            if let (Some((name, _)), Some((value, next))) = (
                split_chars(after_name, "\""),
                split_fold_chars(value_text, "</parameter>"),
            ) {
                let ghost so_far = pairs_view(r@);
                let pair = (text_of(name), text_of(value));
                r.push(pair);
                assert(pairs_view(r@) =~= so_far.push((pair.0@, pair.1@)));
                assert(so_far + named_parameters(rest@) =~= pairs_view(r@) + named_parameters(
                    next@,
                ));
                rest = next;
                continue ;
            }
        }
        rest = after_tag;
    }
}

fn read_members_of(pairs: &Vec<(String, String)>) -> (r: Vec<(String, Json)>)
    ensures
        members_view(r@) == read_members(pairs_view(pairs@)),
{
    let mut r: Vec<(String, Json)> = Vec::new();
    let ghost views = pairs_view(pairs@);
    let mut i: usize = 0;
    assert(members_view(r@) =~= Seq::empty());
    while i < pairs.len()
        invariant
            i <= pairs.len(),
            views == pairs_view(pairs@),
            members_view(r@) == read_members(views.take(i as int)),
        decreases pairs.len() - i,
    {
        assert(views.take(i + 1).drop_last() =~= views.take(i as int));
        assert(views[i as int] == (pairs@[i as int].0@, pairs@[i as int].1@));
        let value = match parse(pairs[i].1.as_str()) {
            Some(v) => v,
            None => Json::Str(pairs[i].1.clone()),
        };
        set_member(&mut r, pairs[i].0.clone(), value);
        i += 1;
    }
    assert(views.take(views.len() as int) =~= views);
    r
}

fn text_members_of(pairs: &Vec<(String, String)>) -> (r: Vec<(String, Json)>)
    ensures
        members_view(r@) == text_members(pairs_view(pairs@)),
{
    let mut r: Vec<(String, Json)> = Vec::new();
    let ghost views = pairs_view(pairs@);
    let mut i: usize = 0;
    assert(members_view(r@) =~= Seq::empty());
    while i < pairs.len()
        invariant
            i <= pairs.len(),
            views == pairs_view(pairs@),
            members_view(r@) == text_members(views.take(i as int)),
        decreases pairs.len() - i,
    {
        assert(views.take(i + 1).drop_last() =~= views.take(i as int));
        assert(views[i as int] == (pairs@[i as int].0@, pairs@[i as int].1@));
        set_member(&mut r, pairs[i].0.clone(), Json::Str(pairs[i].1.clone()));
        i += 1;
    }
    assert(views.take(views.len() as int) =~= views);
    r
}

pub open spec fn call_opt(call: Option<ToolCallRequest>) -> Option<ToolCallView> {
    match call {
        Some(c) => Some(c@),
        None => None,
    }
}

fn text_or(value: Option<&Json>, default: &str) -> (r: String)
    ensures
        r@ == as_text_or(
            match value {
                Some(v) => Some(v@),
                None => None,
            },
            default@,
        ),
{
    match value {
        Some(v) => match v {
            Json::Str(s) => s.clone(),
            _ => default.to_owned(),
        },
        None => default.to_owned(),
    }
}

fn clone_or_empty(value: Option<&Json>) -> (r: Json)
    ensures
        r@ == or_empty(
            match value {
                Some(v) => Some(v@),
                None => None,
            },
        ),
{
    match value {
        Some(v) => v.clone(),
        None => no_members(),
    }
}

/// The call that a JSON block asks for.
pub fn standard_call_of(value: &Json, index: usize) -> (r: ToolCallRequest)
    ensures
        r@ == standard_call(value@, index as nat),
{
    let name = text_or(value.get("name"), "unknown");
    let arguments = clone_or_empty(value.get("arguments"));
    make_call(index, name, arguments)
}

/// The call that a JSON block asks for, also under the names `tool` and `args`.
pub fn lenient_call_of(value: &Json, index: usize) -> (r: ToolCallRequest)
    ensures
        r@ == lenient_call(value@, index as nat),
{
    let name = match value.get("name") {
        Some(v) => text_or(Some(v), "unknown"),
        None => text_or(value.get("tool"), "unknown"),
    };
    let arguments = match value.get("arguments") {
        Some(v) => v.clone(),
        None => clone_or_empty(value.get("args")),
    };
    make_call(index, name, arguments)
}

/// The name and the parameters of a block `<function=name> .. </function>`.
pub fn function_block_of(block: &[char]) -> (r: Option<(String, Vec<(String, String)>)>)
    ensures
        match r {
            Some((name, pairs)) => function_block(block@) == Some((name@, pairs_view(pairs@))),
            None => function_block(block@) is None,
        },
{
    let trimmed = trim_chars(block);
    match split_fold_chars(trimmed, "<function=") {
        None => None,
        Some((_, after_func)) => match split_chars(after_func, ">") {
            None => None,
            Some((name, body)) => {
                let name = trim_chars(name);
                if name.len() == 0 {
                    return None;
                }
                let params = match split_fold_chars(body, "</function>") {
                    Some((head, _)) => head,
                    None => body,
                };
                Some((text_of(name), assigned_parameters_of(params)))
            },
        },
    }
}

fn function_block_call_of(block: &[char], index: usize) -> (r: Option<ToolCallRequest>)
    ensures
        call_opt(r) == function_block_call(block@, index as nat),
{
    match function_block_of(block) {
        Some((name, pairs)) => {
            let members = read_members_of(&pairs);
            Some(make_call(index, name, Json::Object(members)))
        },
        None => None,
    }
}

// Arrow syntax

fn concat(a: &str, b: &str) -> (r: String)
    ensures
        r@ == a@ + b@,
{
    let mut r = a.to_owned();
    r.push_str(b);
    r
}

fn unquote_chars(s: &[char]) -> (r: &[char])
    ensures
        r@ == unquote(s@),
{
    trim_end_of_chars(trim_start_of_chars(s, '"'), '"')
}

fn arrow_word_len_of(s: &[char]) -> (n: usize)
    ensures
        n == arrow_word_len(s@),
        n <= s@.len(),
{
    let mut i: usize = 0;
    assert(s@.skip(0) =~= s@);
    while i < s.len() && !char_is_space(s[i]) && s[i] != ',' && s[i] != '}'
        invariant
            i <= s.len(),
            arrow_word_len(s@) == i + arrow_word_len(s@.skip(i as int)),
        decreases s.len() - i,
    {
        assert(s@.skip(i as int).skip(1) =~= s@.skip(i + 1));
        i += 1;
    }
    i
}

fn bare_len_of(s: &[char]) -> (n: usize)
    ensures
        n == bare_len(s@),
        n <= s@.len(),
{
    let mut i: usize = 0;
    assert(s@.skip(0) =~= s@);
    while i < s.len() && s[i] != ',' && s[i] != '}'
        invariant
            i <= s.len(),
            bare_len(s@) == i + bare_len(s@.skip(i as int)),
        decreases s.len() - i,
    {
        assert(s@.skip(i as int).skip(1) =~= s@.skip(i + 1));
        i += 1;
    }
    i
}

fn arrow_operand_of(text: &[char]) -> (r: Option<String>)
    ensures
        opt_text(r) == arrow_operand(text@),
{
    let operand = trim_chars(text);
    if let Some(rest) = strip_prefix_chars(operand, "\"") {
        if let Some((value, _)) = split_chars(rest, "\"") {
            return Some(text_of(value));
        }
    }
    let n = arrow_word_len_of(operand);
    let word = before(operand, n);
    if n > 0 {
        Some(text_of(unquote_chars(word)))
    } else {
        None
    }
}

fn arrow_value_of(text: &[char], key: &str) -> (r: Option<String>)
    ensures
        opt_text(r) == arrow_value(text@, key@),
{
    let plain = concat(key, " =>");
    if let Some((_, tail)) = split_chars(text, plain.as_str()) {
        if let Some(value) = arrow_operand_of(tail) {
            return Some(value);
        }
    }
    let escaped = concat(key, " =\\u003e");
    match split_chars(text, escaped.as_str()) {
        Some((_, tail)) => arrow_operand_of(tail),
        None => None,
    }
}

fn braced_of(s: &[char]) -> (r: Option<&[char]>)
    ensures
        match r {
            Some(inner) => braced(s@) == Some(inner@),
            None => braced(s@) is None,
        },
{
    if s.len() == 0 || s[0] != '{' {
        return None;
    }
    let mut i: usize = 0;
    let mut depth: usize = 0;
    while i < s.len()
        invariant
            i <= s.len(),
            depth <= i,
            i > 0 ==> depth >= 1,
            s@.len() > 0,
            s@[0] == '{',
            closing_brace(s@, 0, 0) == closing_brace(s@, i as int, depth as int),
        decreases s.len() - i,
    {
        if s[i] == '{' {
            depth += 1;
        } else if s[i] == '}' {
            if depth == 1 {
                return Some(trim_chars(part(s, 1, i)));
            }
            depth -= 1;
        }
        i += 1;
    }
    None
}

/// Calls `str::parse` for a floating-point number and `serde_json::Number::from_f64` on what it
/// gives: nothing where the text is no such number, and no text where it is not finite.
#[verifier::external_body]
fn read_float(text: &str) -> (r: Option<Option<String>>)
    ensures
        float_reading(text@) == match r {
            Some(number) => Some(opt_text(number)),
            None => None,
        },
{
    text.parse().ok().map(|f| serde_json::Number::from_f64(f).map(|n| n.to_string()))
}

pub open spec fn reading_view(reading: Option<Option<String>>) -> Option<Option<Seq<char>>> {
    match reading {
        Some(number) => Some(opt_text(number)),
        None => None,
    }
}

/// The value of an option, given what it was read as for a floating-point number.
pub fn option_value_of(value: &[char], reading: Option<Option<String>>) -> (r: Json)
    ensures
        r@ == option_value(value@, reading_view(reading)),
{
    if value.len() == 0 {
        return Json::Bool(true);
    }
    match integer_of(value) {
        Some(n) => Json::Number(decimal_int_text(n)),
        None => match reading {
            Some(Some(number)) => Json::Number(number),
            Some(None) => Json::Str(text_of(value)),
            None => {
                let yes = chars_of("true");
                let no = chars_of("false");
                if chars_equal(value, yes.as_slice()) {
                    Json::Bool(true)
                } else if chars_equal(value, no.as_slice()) {
                    Json::Bool(false)
                } else {
                    Json::Str(text_of(value))
                }
            },
        },
    }
}

pub open spec fn options_view(list: Seq<(String, Vec<String>)>) -> Seq<
    (Seq<char>, Seq<Seq<char>>),
> {
    list.map_values(|o: (String, Vec<String>)| (o.0@, texts_view(o.1@)))
}

/// The options `--key word word ..` of a text with their words.
pub fn options_of(text: &[char]) -> (r: Vec<(String, Vec<String>)>)
    ensures
        options_view(r@) == options(words(text@)),
{
    let tokens = words_of(text);
    let ghost views = slices_view(tokens@);
    let mut r: Vec<(String, Vec<String>)> = Vec::new();
    let mut i: usize = 0;
    assert(options_view(r@) =~= Seq::empty());
    while i < tokens.len()
        invariant
            i <= tokens.len(),
            views == slices_view(tokens@),
            options_view(r@) == options(views.take(i as int)),
        decreases tokens.len() - i,
    {
        assert(views.take(i + 1).drop_last() =~= views.take(i as int));
        assert(views[i as int] == tokens@[i as int]@);
        let ghost so_far = options_view(r@);
        match strip_prefix_chars(tokens[i], "--") {
            Some(key) => {
                let option = (text_of(key), Vec::<String>::new());
                assert(texts_view(option.1@) =~= Seq::empty());
                r.push(option);
                assert(options_view(r@) =~= so_far.push((key@, Seq::empty())));
            },
            None => {
                if let Some(option) = r.pop() {
                    let (key, mut words) = option;
                    let ghost words_before = texts_view(words@);
                    let ghost last = so_far.last();
                    assert(last == (key@, words_before));
                    let word = text_of(tokens[i]);
                    words.push(word);
                    assert(texts_view(words@) =~= words_before.push(word@));
                    let option = (key, words);
                    r.push(option);
                    assert(options_view(r@) =~= so_far.update(
                        so_far.len() - 1,
                        (last.0, last.1.push(word@)),
                    ));
                } else {
                    assert(so_far =~= Seq::empty());
                    assert(options_view(r@) =~= so_far);
                }
            },
        }
        i += 1;
    }
    assert(views.take(views.len() as int) =~= views);
    r
}

fn dash_args_of(text: &[char]) -> (r: Json)
    ensures
        r@ == dash_args(text@),
{
    let list = options_of(text);
    let ghost views = options_view(list@);
    let mut r: Vec<(String, Json)> = Vec::new();
    let mut i: usize = 0;
    assert(members_view(r@) =~= Seq::empty());
    while i < list.len()
        invariant
            i <= list.len(),
            views == options_view(list@),
            members_view(r@) == option_members(views.take(i as int)),
        decreases list.len() - i,
    {
        assert(views.take(i + 1).drop_last() =~= views.take(i as int));
        assert(views[i as int] == (list@[i as int].0@, texts_view(list@[i as int].1@)));
        let joined = join_texts(&list[i].1, " ");
        let joined = chars_of(joined.as_str());
        let value = trim_chars(unquote_chars(trim_chars(joined.as_slice())));
        let text = text_of(value);
        let reading = read_float(text.as_str());
        let value = option_value_of(value, reading);
        set_member(&mut r, list[i].0.clone(), value);
        i += 1;
    }
    assert(views.take(views.len() as int) =~= views);
    Json::Object(r)
}

fn arrow_arguments_at_of(tail: &[char]) -> (r: Option<Json>)
    ensures
        json_opt(r) == arrow_arguments_at(tail@),
{
    let operand = trim_chars(tail);
    match braced_of(operand) {
        Some(inner) => {
            let mut attempt = "{".to_owned();
            attempt.push_str(text_of(inner).as_str());
            attempt.push_str("}");
            match parse(attempt.as_str()) {
                Some(value) => Some(value),
                None => Some(dash_args_of(inner)),
            }
        },
        None => {
            let n = bare_len_of(operand);
            let value = trim_chars(before(operand, n));
            if value.len() > 0 {
                Some(object1("value", Json::Str(text_of(value))))
            } else {
                None
            }
        },
    }
}

fn arrow_arguments_of(text: &[char]) -> (r: Json)
    ensures
        r@ == arrow_arguments(text@),
{
    if let Some((_, tail)) = split_chars(text, "args =>") {
        if let Some(value) = arrow_arguments_at_of(tail) {
            return value;
        }
    }
    if let Some((_, tail)) = split_chars(text, "arguments =>") {
        if let Some(value) = arrow_arguments_at_of(tail) {
            return value;
        }
    }
    no_members()
}

/// The call that a bracket block asks for, given what the block was read as.
pub fn bracket_call_of(block: &[char], index: usize, parsed: Option<Json>) -> (r: Option<
    ToolCallRequest,
>)
    ensures
        call_opt(r) == bracket_call(block@, index as nat, json_opt(parsed)),
{
    if let Some(value) = parsed {
        return Some(lenient_call_of(&value, index));
    }
    let t = trim_chars(block);
    let inner = if t.len() >= 2 && t[0] == '{' && t[t.len() - 1] == '}' {
        trim_chars(part(t, 1, t.len() - 1))
    } else {
        trim_chars(t)
    };
    let name = match arrow_value_of(inner, "tool") {
        Some(name) => Some(name),
        None => arrow_value_of(inner, "name"),
    };
    match name {
        Some(name) => Some(make_call(index, name, arrow_arguments_of(inner))),
        None => None,
    }
}

/// The call that a tagged block asks for, given what the block was read as.
pub fn tagged_call_of(block: &[char], index: usize, parsed: Option<Json>) -> (r: Option<
    ToolCallRequest,
>)
    ensures
        call_opt(r) == tagged_call(block@, index as nat, json_opt(parsed)),
{
    match parsed {
        Some(value) => Some(standard_call_of(&value, index)),
        None => function_block_call_of(block, index),
    }
}

fn push_chars(text: &mut String, chars: &[char])
    ensures
        final(text)@ == old(text)@ + chars@,
{
    text.push_str(text_of(chars).as_str());
}

/// How the text and the calls of a pass grow by one block.
proof fn lemma_pass_step(
    text: Seq<char>,
    head: Seq<char>,
    rest_text: Seq<char>,
    calls: Seq<ToolCallView>,
    call: ToolCallView,
    rest_calls: Seq<ToolCallView>,
)
    ensures
        text + (head + rest_text) == text + head + rest_text,
        calls + (seq![call] + rest_calls) == calls.push(call) + rest_calls,
{
    assert(text + (head + rest_text) =~= text + head + rest_text);
    assert(calls + (seq![call] + rest_calls) =~= calls.push(call) + rest_calls);
}

fn invocation_at_of(tail: &[char]) -> (r: Option<(&[char], &[char], &[char])>)
    ensures
        match r {
            Some((name, params, next)) => invocation_at(tail@) == Some((name@, params@, next@)),
            None => invocation_at(tail@) is None,
        },
{
    match split_chars(tail, "name=\"") {
        None => None,
        Some((_, after_attr)) => match split_chars(after_attr, "\"") {
            None => None,
            Some((name, after_name)) => match split_chars(after_name, ">") {
                None => None,
                Some((_, body)) => {
                    let parts = match split_fold_chars(body, "</invoke>") {
                        Some(parts) => parts,
                        None => (body, after(body, body.len())),
                    };
                    proof {
                        assert(body@.skip(body@.len() as int) =~= Seq::empty());
                    }
                    let t = trim_start_chars(parts.1);
                    let folded = lower_chars(t);
                    let wrapper = chars_of("</minimax:tool_call>");
                    let next = if chars_start_with(folded.as_slice(), wrapper.as_slice()) {
                        after(t, wrapper.len())
                    } else {
                        parts.1
                    };
                    Some((trim_chars(name), parts.0, next))
                },
            },
        },
    }
}

/// The `<tool_call>` blocks of a text.
fn take_tagged(content: &[char]) -> (r: (String, Vec<ToolCallRequest>))
    ensures
        (r.0@, calls_view(r.1@)) == tagged_pass(content@, 0),
{
    let mut text = String::new();
    let mut calls: Vec<ToolCallRequest> = Vec::new();
    let mut rest = content;
    assert(calls_view(calls@) =~= Seq::empty());
    assert(text@ + tagged_pass(content@, 0).0 =~= tagged_pass(content@, 0).0);
    assert(calls_view(calls@) + tagged_pass(content@, 0).1 =~= tagged_pass(content@, 0).1);
    loop
        invariant
            tagged_pass(content@, 0) == (
                text@ + tagged_pass(rest@, calls@.len()).0,
                calls_view(calls@) + tagged_pass(rest@, calls@.len()).1,
            ),
        decreases rest@.len(),
    {
        let ghost index = calls@.len();
        let ghost text_before = text@;
        let ghost calls_before = calls_view(calls@);
        proof {
            reveal_strlit("<tool_call>");
            lemma_split(rest@, "<tool_call>"@);
        }
        let parts = match split_chars(rest, "<tool_call>") {
            Some((head, tail)) => match split_chars(tail, "</tool_call>") {
                Some((inner, next)) => Some((head, tail, inner, next)),
                None => None,
            },
            None => None,
        };
        match parts {
            None => {
                push_chars(&mut text, rest);
                assert(calls_before + Seq::empty() =~= calls_before);
                return (text, calls);
            },
            Some((head, tail, inner, next)) => {
                proof {
                    lemma_split(tail@, "</tool_call>"@);
                }
                push_chars(&mut text, head);
                let block = trim_chars(inner);
                let parsed = parse(text_of(block).as_str());
                match tagged_call_of(block, calls.len(), parsed) {
                    Some(call) => {
                        calls.push(call);
                        assert(calls_view(calls@) =~= calls_before.push(call@));
                        proof {
                            lemma_pass_step(
                                text_before,
                                head@,
                                tagged_pass(next@, index + 1).0,
                                calls_before,
                                call@,
                                tagged_pass(next@, index + 1).1,
                            );
                        }
                    },
                    None => {
                        text.push_str("<tool_call>");
                        push_chars(&mut text, inner);
                        text.push_str("</tool_call>");
                        let ghost kept = "<tool_call>"@ + inner@ + "</tool_call>"@;
                        assert(text_before + head@ + "<tool_call>"@ + inner@ + "</tool_call>"@
                            =~= text_before + (head@ + kept));
                        assert(text_before + (head@ + kept + tagged_pass(next@, index).0)
                            =~= text_before + (head@ + kept) + tagged_pass(next@, index).0);
                    },
                }
                rest = next;
            },
        }
    }
}

/// The `[TOOL_CALL]` blocks of a text.
fn take_bracketed(content: &[char]) -> (r: (String, Vec<ToolCallRequest>))
    ensures
        (r.0@, calls_view(r.1@)) == bracket_pass(content@, 0),
{
    let mut text = String::new();
    let mut calls: Vec<ToolCallRequest> = Vec::new();
    let mut rest = content;
    assert(calls_view(calls@) =~= Seq::empty());
    assert(text@ + bracket_pass(content@, 0).0 =~= bracket_pass(content@, 0).0);
    assert(calls_view(calls@) + bracket_pass(content@, 0).1 =~= bracket_pass(content@, 0).1);
    loop
        invariant
            bracket_pass(content@, 0) == (
                text@ + bracket_pass(rest@, calls@.len()).0,
                calls_view(calls@) + bracket_pass(rest@, calls@.len()).1,
            ),
        decreases rest@.len(),
    {
        let ghost index = calls@.len();
        let ghost text_before = text@;
        let ghost calls_before = calls_view(calls@);
        proof {
            reveal_strlit("[tool_call]");
            lemma_split(rest@, "[tool_call]"@);
        }
        match split_fold_chars(rest, "[tool_call]") {
            None => {
                push_chars(&mut text, rest);
                assert(calls_before + Seq::empty() =~= calls_before);
                return (text, calls);
            },
            Some((head, tail)) => {
                proof {
                    lemma_split(tail@, "[/tool_call]"@);
                }
                push_chars(&mut text, head);
                match split_fold_chars(tail, "[/tool_call]") {
                    None => {
                        let block = trim_chars(tail);
                        let parsed = parse(text_of(block).as_str());
                        match bracket_call_of(block, calls.len(), parsed) {
                            Some(call) => {
                                calls.push(call);
                                assert(calls_view(calls@) =~= calls_before + seq![call@]);
                            },
                            None => {
                                assert(calls_before + Seq::empty() =~= calls_before);
                            },
                        }
                        return (text, calls);
                    },
                    Some((inner, next)) => {
                        let block = trim_chars(inner);
                        let parsed = parse(text_of(block).as_str());
                        match bracket_call_of(block, calls.len(), parsed) {
                            Some(call) => {
                                calls.push(call);
                                assert(calls_view(calls@) =~= calls_before.push(call@));
                                proof {
                                    lemma_pass_step(
                                        text_before,
                                        head@,
                                        bracket_pass(next@, index + 1).0,
                                        calls_before,
                                        call@,
                                        bracket_pass(next@, index + 1).1,
                                    );
                                }
                            },
                            None => {
                                assert(text_before + (head@ + bracket_pass(next@, index).0)
                                    =~= text@ + bracket_pass(next@, index).0);
                            },
                        }
                        rest = next;
                    },
                }
            },
        }
    }
}

/// The `[Called: name]` blocks of a text.
fn take_called(content: &[char]) -> (r: (String, Vec<ToolCallRequest>))
    ensures
        (r.0@, calls_view(r.1@)) == called_pass(content@, 0),
{
    let mut text = String::new();
    let mut calls: Vec<ToolCallRequest> = Vec::new();
    let mut rest = content;
    assert(calls_view(calls@) =~= Seq::empty());
    assert(text@ + called_pass(content@, 0).0 =~= called_pass(content@, 0).0);
    assert(calls_view(calls@) + called_pass(content@, 0).1 =~= called_pass(content@, 0).1);
    loop
        invariant
            called_pass(content@, 0) == (
                text@ + called_pass(rest@, calls@.len()).0,
                calls_view(calls@) + called_pass(rest@, calls@.len()).1,
            ),
        decreases rest@.len(),
    {
        let ghost index = calls@.len();
        let ghost text_before = text@;
        let ghost calls_before = calls_view(calls@);
        proof {
            reveal_strlit("[called:");
            lemma_split(rest@, "[called:"@);
        }
        let parts = match split_fold_chars(rest, "[called:") {
            Some((head, tail)) => match split_chars(tail, "]") {
                Some((name, after_name)) => Some((head, tail, name, after_name)),
                None => None,
            },
            None => None,
        };
        match parts {
            None => {
                push_chars(&mut text, rest);
                assert(calls_before + Seq::empty() =~= calls_before);
                return (text, calls);
            },
            Some((head, tail, name, after_name)) => {
                proof {
                    lemma_split(tail@, "]"@);
                    lemma_split(after_name@, "</minimax:tool_call>"@);
                    lemma_split(after_name@, "</invoke>"@);
                }
                push_chars(&mut text, head);
                let name = trim_chars(name);
                let body = match split_fold_chars(after_name, "</minimax:tool_call>") {
                    Some(parts) => parts,
                    None => match split_fold_chars(after_name, "</invoke>") {
                        Some(parts) => parts,
                        None => (after_name, after(after_name, after_name.len())),
                    },
                };
                let next = body.1;
                assert(called_body(after_name@).0 =~= body.0@);
                assert(called_body(after_name@).1 =~= body.1@);
                if name.len() > 0 {
                    let pairs = named_parameters_of(body.0);
                    let members = text_members_of(&pairs);
                    let call = make_call(calls.len(), text_of(name), Json::Object(members));
                    calls.push(call);
                    assert(calls_view(calls@) =~= calls_before.push(call@));
                    proof {
                        lemma_pass_step(
                            text_before,
                            head@,
                            called_pass(next@, index + 1).0,
                            calls_before,
                            call@,
                            called_pass(next@, index + 1).1,
                        );
                    }
                } else {
                    assert(text_before + (head@ + called_pass(next@, index).0) =~= text@
                        + called_pass(next@, index).0);
                }
                rest = next;
            },
        }
    }
}

/// The `<invoke name="..">` blocks of a text.
fn take_invoked(content: &[char]) -> (r: (String, Vec<ToolCallRequest>))
    ensures
        (r.0@, calls_view(r.1@)) == invoke_pass(content@, 0),
{
    let mut text = String::new();
    let mut calls: Vec<ToolCallRequest> = Vec::new();
    let mut rest = content;
    assert(calls_view(calls@) =~= Seq::empty());
    assert(text@ + invoke_pass(content@, 0).0 =~= invoke_pass(content@, 0).0);
    assert(calls_view(calls@) + invoke_pass(content@, 0).1 =~= invoke_pass(content@, 0).1);
    loop
        invariant
            invoke_pass(content@, 0) == (
                text@ + invoke_pass(rest@, calls@.len()).0,
                calls_view(calls@) + invoke_pass(rest@, calls@.len()).1,
            ),
        decreases rest@.len(),
    {
        let ghost index = calls@.len();
        let ghost text_before = text@;
        let ghost calls_before = calls_view(calls@);
        proof {
            reveal_strlit("<invoke");
            lemma_split(rest@, "<invoke"@);
        }
        match split_fold_chars(rest, "<invoke") {
            None => {
                push_chars(&mut text, rest);
                assert(calls_before + Seq::empty() =~= calls_before);
                return (text, calls);
            },
            Some((head, tail)) => {
                proof {
                    lemma_invocation_at(tail@);
                }
                match invocation_at_of(tail) {
                    None => {
                        let kept = before(rest, rest.len() - tail.len());
                        push_chars(&mut text, kept);
                        assert(text_before + (kept@ + invoke_pass(tail@, index).0) =~= text@
                            + invoke_pass(tail@, index).0);
                        rest = tail;
                    },
                    Some((name, params, next)) => {
                        push_chars(&mut text, head);
                        if name.len() > 0 {
                            let pairs = named_parameters_of(params);
                            let members = read_members_of(&pairs);
                            let call = make_call(
                                calls.len(),
                                text_of(name),
                                Json::Object(members),
                            );
                            calls.push(call);
                            assert(calls_view(calls@) =~= calls_before.push(call@));
                            proof {
                                lemma_pass_step(
                                    text_before,
                                    head@,
                                    invoke_pass(next@, index + 1).0,
                                    calls_before,
                                    call@,
                                    invoke_pass(next@, index + 1).1,
                                );
                            }
                        } else {
                            assert(text_before + (head@ + invoke_pass(next@, index).0) =~= text@
                                + invoke_pass(next@, index).0);
                        }
                        rest = next;
                    },
                }
            },
        }
    }
}

impl OpenAIProvider {
    /// The tool calls in a model's answer, and the answer's text without them.
    ///
    /// Blocks are looked for in these forms, each only where the forms before it gave no call:
    /// `<tool_call>{"name": .., "arguments": ..}</tool_call>` or with `<function=name>` inside,
    /// `[TOOL_CALL]{tool => "..", args => {..}}[/TOOL_CALL]`, `[Called: name]` with
    /// `<parameter name="..">` tags, and `<invoke name="..">`.
    pub fn parse_text_tool_calls(content: &str) -> (r: (String, Vec<ToolCallRequest>))
        ensures
            (r.0@, calls_view(r.1@)) == text_tool_calls(content@),
    {
        let chars = chars_of(content);
        let mut found = take_tagged(chars.as_slice());
        if found.1.len() == 0 {
            let text = chars_of(found.0.as_str());
            found = take_bracketed(text.as_slice());
        }
        if found.1.len() == 0 {
            let text = chars_of(found.0.as_str());
            found = take_called(text.as_slice());
        }
        if found.1.len() == 0 {
            let text = chars_of(found.0.as_str());
            found = take_invoked(text.as_slice());
        }
        let text = chars_of(found.0.as_str());
        (text_of(trim_chars(text.as_slice())), found.1)
    }

    /// The call in a block `<function=name><parameter=key>value</parameter></function>`.
    pub fn parse_function_parameter_tool_block(block: &str, call_index: usize) -> (r: Option<
        ToolCallRequest,
    >)
        ensures
            call_opt(r) == function_block_call(block@, call_index as nat),
    {
        let chars = chars_of(block);
        function_block_call_of(chars.as_slice(), call_index)
    }

    /// The call in a block such as `{tool => "memory_query", args => { --top_k 20 }}` or
    /// `{"name": "memory_query", "arguments": {"top_k": 20}}`.
    pub fn parse_nonstandard_tool_block(block: &str, index: usize) -> (r: Option<ToolCallRequest>)
        ensures
            call_opt(r) == bracket_call(block@, index as nat, json_parsed(block@)),
    {
        let chars = chars_of(block);
        let parsed = parse(block);
        bracket_call_of(chars.as_slice(), index, parsed)
    }

    /// The string in `key => "value"` or `key => value`.
    pub fn extract_arrow_value(text: &str, key: &str) -> (r: Option<String>)
        ensures
            opt_text(r) == arrow_value(text@, key@),
    {
        let chars = chars_of(text);
        arrow_value_of(chars.as_slice(), key)
    }

    /// The arguments in `args => { --key value }` or `args => {"key": "value"}`.
    pub fn extract_arrow_args(text: &str) -> (r: Json)
        ensures
            r@ == arrow_arguments(text@),
    {
        let chars = chars_of(text);
        arrow_arguments_of(chars.as_slice())
    }

    /// The object that `--key value` options make; an option without words is `true`.
    pub fn parse_dash_args(text: &str) -> (r: Json)
        ensures
            r@ == dash_args(text@),
    {
        let chars = chars_of(text);
        dash_args_of(chars.as_slice())
    }
}

} // verus!
