//! What holds of the answers of services and of the results that are shown.

use crate::gemini_answer::{
    add_parts, gemini_answer, part_calls, part_texts, token_counts, CandidateView, GeminiStreamView,
    PartView, UsageMetadata,
};
use crate::gemini_laws::law_data_url_reads_back;
use crate::json::{json_parsed, lookup};
use crate::ollama::{
    block_image, block_images, block_text, block_texts, call_chunks, function_calls,
    ollama_block_call, ollama_call_id, ollama_message, ollama_pass, with_text_tools,
    OllamaFunctionCall,
};
use crate::presentation::{
    compact, compact_items, compact_members, compact_result, heavy_key, presentation, text_preview,
};
use crate::reading_laws::{repeated, written_blocks};
use crate::text::{decimal, join, trim};
use crate::text_laws::{
    lacks, law_no_split_without_pattern, law_split_at_the_first, leads_to, lemma_lacks_leads,
};
use crate::types::{or_empty, ChunkView, MessageView, ToolCallView};
use crate::value::JsonView;
use vstd::prelude::*;

verus! {

// ---------------------------------------------------------------------------
// Messages for a service that takes texts and images
// ---------------------------------------------------------------------------

/// Of an image block with a URL of data the data is sent, and no text; of a text block the text,
/// and no image.
pub proof fn law_ollama_block(block: JsonView, mime: Seq<char>, data: Seq<char>, text: Seq<char>)
    requires
        lacks(mime, ';'),
    ensures
        block.str_at("type"@) == Some("image_url"@) && block.get("image_url"@) is Some && block.get(
            "image_url"@,
        )->0.str_at("url"@) == Some("data:"@ + mime + ";"@ + "base64,"@ + data) ==> block_image(
            block,
        ) == Some(data) && block_text(block) is None,
        block.str_at("type"@) == Some("text"@) && block.str_at("text"@) == Some(text)
            ==> block_text(block) == Some(text) && block_image(block) is None,
{
    reveal_strlit("text");
    reveal_strlit("image_url");
    assert("text"@.len() == 4 && "image_url"@.len() == 9);
    law_data_url_reads_back(mime, data, Seq::empty());
}

/// The texts and the images of a message stand in order, each block giving its own.
pub proof fn law_ollama_blocks_in_order(blocks: Seq<JsonView>, block: JsonView)
    ensures
        block_texts(blocks.push(block)) == match block_text(block) {
            Some(text) => block_texts(blocks).push(text),
            None => block_texts(blocks),
        },
        block_images(blocks.push(block)) == match block_image(block) {
            Some(image) => block_images(blocks).push(image),
            None => block_images(blocks),
        },
{
    assert(blocks.push(block).drop_last() =~= blocks);
}

/// A message keeps its role; a plain text is sent as it is, and blocks as their texts, one on each
/// line, with their images beside them.
pub proof fn law_ollama_message(message: MessageView, text: Seq<char>, blocks: Seq<JsonView>)
    ensures
        ollama_message(message).role == message.role,
        message.content == JsonView::Str(text) ==> ollama_message(message).content == text
            && ollama_message(message).images is None,
        message.content == JsonView::Array(blocks) ==> ollama_message(message).content == join(
            block_texts(blocks),
            "\n"@,
        ) && (block_images(blocks).len() > 0 ==> ollama_message(message).images == Some(
            block_images(blocks),
        )),
{
}

/// A description of tools as text is put behind the system text and changes no other message.
pub proof fn law_tools_go_into_the_system_text(
    messages: Seq<MessageView>,
    prompt: Seq<char>,
    text: Seq<char>,
)
    requires
        messages.len() > 0,
        messages[0].role == "system"@,
        messages[0].content == JsonView::Str(text),
    ensures
        with_text_tools(messages, prompt).len() == messages.len(),
        with_text_tools(messages, prompt)[0].role == "system"@,
        with_text_tools(messages, prompt)[0].content == JsonView::Str(text + prompt),
        with_text_tools(messages, prompt).skip(1) == messages.skip(1),
{
    assert(with_text_tools(messages, prompt).skip(1) =~= messages.skip(1));
}

// ---------------------------------------------------------------------------
// Calls in an answer
// ---------------------------------------------------------------------------

/// Blocks of JSON give one call each, in order, with the name and the arguments that each of them
/// has, and what stands between them is left.
pub proof fn law_ollama_calls_read_back(
    blocks: Seq<Seq<char>>,
    values: Seq<JsonView>,
    gap: Seq<char>,
    end: Seq<char>,
    index: nat,
)
    requires
        lacks(gap, '<'),
        lacks(end, '<'),
        blocks.len() == values.len(),
        forall|i: int|
            0 <= i < blocks.len() ==> leads_to(#[trigger] blocks[i], "</tool_call>"@)
                && json_parsed(trim(blocks[i])) == Some(values[i]),
    ensures
        ({
            let read = ollama_pass(written_blocks(blocks, gap) + end, index);
            &&& read.0 == repeated(gap, blocks.len()) + end
            &&& read.1.len() == blocks.len()
            &&& forall|i: int|
                0 <= i < blocks.len() ==> {
                    &&& (#[trigger] read.1[i]).id == ollama_call_id((index + i) as nat)
                    &&& read.1[i].name == values[i].str_or("name"@, "unknown"@)
                    &&& read.1[i].arguments == or_empty(values[i].get("arguments"@))
                }
        }),
    decreases blocks.len(),
{
    reveal_strlit("<tool_call>");
    reveal_strlit("</tool_call>");
    let s = written_blocks(blocks, gap) + end;
    if blocks.len() == 0 {
        assert(s =~= end);
        law_no_split_without_pattern(end, "<tool_call>"@);
        assert(repeated(gap, 0) + end =~= end);
    } else {
        let rest = written_blocks(blocks.skip(1), gap) + end;
        let later = values.skip(1);
        let tail = blocks[0] + "</tool_call>"@ + rest;
        assert(s =~= gap + "<tool_call>"@ + tail);
        lemma_lacks_leads(gap, "<tool_call>"@);
        law_split_at_the_first(gap, "<tool_call>"@, tail);
        assert(leads_to(blocks[0], "</tool_call>"@));
        law_split_at_the_first(blocks[0], "</tool_call>"@, rest);
        assert forall|i: int| 0 <= i < blocks.skip(1).len() implies leads_to(
            #[trigger] blocks.skip(1)[i],
            "</tool_call>"@,
        ) && json_parsed(trim(blocks.skip(1)[i])) == Some(later[i]) by {
            assert(blocks.skip(1)[i] == blocks[i + 1]);
        }
        law_ollama_calls_read_back(blocks.skip(1), later, gap, end, index + 1);
        let next = ollama_pass(rest, index + 1);
        let read = ollama_pass(s, index);
        assert(read.1 == seq![ollama_block_call(values[0], index)] + next.1);
        assert(gap + (repeated(gap, (blocks.len() - 1) as nat) + end) =~= repeated(gap, blocks.len())
            + end);
        assert forall|i: int| 0 <= i < blocks.len() implies {
            &&& (#[trigger] read.1[i]).id == ollama_call_id((index + i) as nat)
            &&& read.1[i].name == values[i].str_or("name"@, "unknown"@)
            &&& read.1[i].arguments == or_empty(values[i].get("arguments"@))
        } by {
            if i > 0 {
                assert(read.1[i] == next.1[i - 1]);
                assert(later[i - 1] == values[i]);
            }
        }
    }
}

/// A call that comes as such is taken over with its name and its arguments, numbered by its place,
/// and passed on with them.
pub proof fn law_native_calls_are_taken_over(
    list: Seq<Option<OllamaFunctionCall>>,
    call: OllamaFunctionCall,
)
    ensures
        ({
            let calls = function_calls(list.push(Some(call)));
            &&& calls.len() == function_calls(list).len() + 1
            &&& calls.drop_last() == function_calls(list)
            &&& calls.last().id == ollama_call_id(list.len())
            &&& calls.last().name == call.name@ && calls.last().arguments == call.arguments@
        }),
        function_calls(list.push(None)) == function_calls(list),
        ({
            let chunks = call_chunks(list.push(Some(call)));
            let n = call_chunks(list).len() as int;
            &&& chunks.len() == n + 2
            &&& chunks.take(n) == call_chunks(list)
            &&& chunks[n] == (ChunkView::ToolCallStart {
                index: list.len() as int,
                id: ollama_call_id(list.len()),
                name: call.name@,
            })
            &&& chunks[n + 1] == (ChunkView::ToolCallDelta {
                index: list.len() as int,
                id: ollama_call_id(list.len()),
                delta: crate::json::json_text(call.arguments@),
            })
        }),
{
    assert(list.push(Some(call)).drop_last() =~= list);
    assert(list.push(None::<OllamaFunctionCall>).drop_last() =~= list);
    assert(function_calls(list.push(Some(call))).drop_last() =~= function_calls(list));
    let n = call_chunks(list).len() as int;
    assert(call_chunks(list.push(Some(call))).take(n) =~= call_chunks(list));
}

/// The counts of tokens stand under their names.
pub proof fn law_token_counts(prompt: u64, completion: u64)
    ensures
        token_counts(Some(prompt), Some(completion)).get("prompt_tokens"@) == Some(
            JsonView::Number(decimal(prompt as nat)),
        ),
        token_counts(Some(prompt), Some(completion)).get("completion_tokens"@) == Some(
            JsonView::Number(decimal(completion as nat)),
        ),
{
    reveal_strlit("prompt_tokens");
    reveal_strlit("completion_tokens");
    assert("prompt_tokens"@.len() == 13 && "completion_tokens"@.len() == 17);
    reveal_with_fuel(lookup, 3);
    let members = token_counts(Some(prompt), Some(completion))->Object_0;
    assert(members.skip(1)[0] == members[1]);
}

// ---------------------------------------------------------------------------
// Parts of an answer
// ---------------------------------------------------------------------------

/// The texts of an answer are those of its parts, in order, and its calls those of its parts, each
/// with its name, its arguments and its signature.
pub proof fn law_answer_parts(parts: Seq<PartView>, part: PartView)
    ensures
        part.text is Some && part.text->0.len() > 0 ==> part_texts(parts.push(part)) == part_texts(
            parts,
        ).push(part.text->0),
        part.text is None || part.text->0.len() == 0 ==> part_texts(parts.push(part)) == part_texts(
            parts,
        ),
        part.function_call is None ==> part_calls(parts.push(part)) == part_calls(parts),
        part.function_call is Some ==> {
            let calls = part_calls(parts.push(part));
            &&& calls.len() == part_calls(parts).len() + 1
            &&& calls.drop_last() == part_calls(parts)
            &&& calls.last().name == part.function_call->0.name
            &&& part.function_call->0.args is Some ==> calls.last().arguments
                == part.function_call->0.args->0
            &&& calls.last().thought_signature == part.thought_signature
        },
{
    assert(parts.push(part).drop_last() =~= parts);
    if part.function_call is Some {
        assert(part_calls(parts.push(part)).drop_last() =~= part_calls(parts));
    }
}

/// An answer says all its texts, one on each line, and asks for all its calls.
pub proof fn law_whole_answer(candidate: CandidateView, usage: Option<UsageMetadata>)
    ensures
        part_texts(candidate.parts).len() > 0 ==> gemini_answer(candidate, usage).content == Some(
            join(part_texts(candidate.parts), "\n"@),
        ),
        part_texts(candidate.parts).len() == 0 ==> gemini_answer(candidate, usage).content is None,
        gemini_answer(candidate, usage).tool_calls == part_calls(candidate.parts),
{
}

/// The same call, but for how it is numbered.
pub open spec fn same_calls(a: Seq<ToolCallView>, b: Seq<ToolCallView>) -> bool {
    a.len() == b.len() && forall|i: int|
        0 <= i < a.len() ==> (#[trigger] a[i]).name == b[i].name && a[i].arguments
            == b[i].arguments && a[i].thought_signature == b[i].thought_signature
}

/// What comes in pieces makes the same answer as what comes at once: all texts in order and the
/// same calls, after what was there.
pub proof fn law_streamed_parts_make_the_answer(state: GeminiStreamView, parts: Seq<PartView>)
    ensures
        ({
            let after = add_parts(state, parts).0;
            let n = state.tool_calls.len() as int;
            &&& after.content == state.content + concat(part_texts(parts))
            &&& after.tool_calls.len() >= n
            &&& after.tool_calls.take(n) == state.tool_calls
            &&& same_calls(after.tool_calls.skip(n), part_calls(parts))
            &&& after.usage == state.usage && after.finish_reason == state.finish_reason
        }),
    decreases parts.len(),
{
    let after = add_parts(state, parts).0;
    let n = state.tool_calls.len() as int;
    if parts.len() == 0 {
        assert(state.content + concat(part_texts(parts)) =~= state.content);
        assert(after.tool_calls.take(n) =~= state.tool_calls);
    } else {
        let prior = parts.drop_last();
        let part = parts.last();
        law_streamed_parts_make_the_answer(state, prior);
        let before = add_parts(state, prior).0;
        assert(after.content =~= state.content + concat(part_texts(parts))) by {
            let texts = part_texts(parts);
            if part.text is Some && part.text->0.len() > 0 {
                assert(texts.drop_last() =~= part_texts(prior));
                assert(texts.last() == part.text->0);
            }
        }
        assert(after.tool_calls.take(n) =~= before.tool_calls.take(n));
        let a = after.tool_calls.skip(n);
        let b = part_calls(parts);
        if part.function_call is Some {
            assert(a.drop_last() =~= before.tool_calls.skip(n));
            assert(b.drop_last() =~= part_calls(prior));
            assert forall|i: int| 0 <= i < a.len() implies (#[trigger] a[i]).name == b[i].name
                && a[i].arguments == b[i].arguments && a[i].thought_signature
                == b[i].thought_signature by {
                if i < a.len() - 1 {
                    assert(a[i] == a.drop_last()[i] && b[i] == b.drop_last()[i]);
                }
            }
        }
    }
}

/// Texts one behind the other.
pub open spec fn concat(texts: Seq<Seq<char>>) -> Seq<char>
    decreases texts.len(),
{
    if texts.len() == 0 {
        Seq::empty()
    } else {
        concat(texts.drop_last()) + texts.last()
    }
}

// ---------------------------------------------------------------------------
// Results in short
// ---------------------------------------------------------------------------

/// A value that need not be made shorter: short texts, short lists, no text under a heavy key, and
/// few levels.
pub open spec fn small(value: JsonView, depth: nat) -> bool
    decreases 5 - depth,
{
    if depth >= 4 {
        match value {
            JsonView::Str(s) => s.len() <= 160,
            JsonView::Array(_) => false,
            JsonView::Object(_) => false,
            _ => true,
        }
    } else {
        match value {
            JsonView::Str(s) => s.len() <= 400,
            JsonView::Array(items) => items.len() <= 8 && forall|i: int|
                0 <= i < items.len() ==> small(#[trigger] items[i], depth + 1),
            JsonView::Object(members) => forall|i: int|
                0 <= i < members.len() ==> small((#[trigger] members[i]).1, depth + 1) && !(
                heavy_key(members[i].0) && members[i].1 is Str),
            _ => true,
        }
    }
}

proof fn lemma_small_items(items: Seq<JsonView>, depth: nat)
    requires
        depth <= 4,
        forall|i: int| 0 <= i < items.len() ==> small(#[trigger] items[i], depth),
    ensures
        compact_items(items, depth) == items,
    decreases 5 - depth, 1 + items.len(),
{
    if items.len() > 0 {
        let prior = items.drop_last();
        assert forall|i: int| 0 <= i < prior.len() implies small(#[trigger] prior[i], depth) by {
            assert(prior[i] == items[i]);
        }
        lemma_small_items(prior, depth);
        assert(small(items[items.len() - 1], depth));
        law_small_values_stay(items.last(), depth);
    }
    assert(compact_items(items, depth) =~= items);
}

proof fn lemma_small_members(members: Seq<(Seq<char>, JsonView)>, depth: nat)
    requires
        depth <= 4,
        forall|i: int|
            0 <= i < members.len() ==> small((#[trigger] members[i]).1, depth) && !(heavy_key(
                members[i].0,
            ) && members[i].1 is Str),
    ensures
        compact_members(members, depth) == members,
    decreases 5 - depth, 1 + members.len(),
{
    if members.len() > 0 {
        let prior = members.drop_last();
        assert forall|i: int| 0 <= i < prior.len() implies small((#[trigger] prior[i]).1, depth)
            && !(heavy_key(prior[i].0) && prior[i].1 is Str) by {
            assert(prior[i] == members[i]);
        }
        lemma_small_members(prior, depth);
        let last = members[members.len() - 1];
        assert(small(last.1, depth));
        law_small_values_stay(last.1, depth);
    }
    assert(compact_members(members, depth) =~= members);
}

/// A value that need not be made shorter stays as it is.
pub proof fn law_small_values_stay(value: JsonView, depth: nat)
    requires
        depth <= 4,
        small(value, depth),
    ensures
        compact(value, depth) == value,
    decreases 5 - depth, 0nat,
{
    if depth < 4 {
        match value {
            JsonView::Array(items) => {
                lemma_small_items(items, depth + 1);
            },
            JsonView::Object(members) => {
                lemma_small_members(members, depth + 1);
            },
            _ => {},
        }
    }
}

/// A long text keeps its start, and the text under a heavy key its start and its length.
pub proof fn law_long_text_in_short(s: Seq<char>, depth: nat)
    requires
        depth < 4,
        s.len() > 400,
    ensures
        compact(JsonView::Str(s), depth) == JsonView::Str(s.take(400)),
        text_preview(s).get("length"@) == Some(JsonView::Number(decimal(s.len()))),
        text_preview(s).str_at("preview"@) == Some(s.take(240)),
        text_preview(s).get("truncated"@) == Some(JsonView::Bool(true)),
{
    reveal_strlit("length");
    reveal_strlit("preview");
    reveal_strlit("truncated");
    assert("length"@.len() == 6 && "preview"@.len() == 7 && "truncated"@.len() == 9);
    reveal_with_fuel(lookup, 4);
    let members = text_preview(s)->Object_0;
    assert(members.skip(1)[0] == members[1]);
    assert(members.skip(1).skip(1)[0] == members[2]);
}

/// A long list keeps its first eight items, each in short, and its length.
pub proof fn law_long_list_in_short(items: Seq<JsonView>, depth: nat, i: int)
    requires
        depth < 4,
        items.len() > 8,
        0 <= i < 8,
    ensures
        ({
            let short = compact(JsonView::Array(items), depth);
            &&& short.get("total"@) == Some(JsonView::Number(decimal(items.len())))
            &&& short.get("items"@) is Some && short.get("items"@)->0 is Array
            &&& short.get("items"@)->0->Array_0.len() == 8
            &&& short.get("items"@)->0->Array_0[i] == compact(items[i], depth + 1)
        }),
{
    reveal_strlit("items");
    reveal_strlit("total");
    reveal_strlit("truncated");
    assert("items"@[0] == 'i' && "total"@[0] == 't' && "truncated"@.len() == 9 && "total"@.len() == 5);
    reveal_with_fuel(lookup, 4);
    let members = compact(JsonView::Array(items), depth)->Object_0;
    assert(members.skip(1)[0] == members[1]);
    lemma_compact_item(items.take(8), depth + 1, i);
}

proof fn lemma_compact_item(items: Seq<JsonView>, depth: nat, i: int)
    requires
        depth <= 4,
        0 <= i < items.len(),
    ensures
        compact_items(items, depth).len() == items.len(),
        compact_items(items, depth)[i] == compact(items[i], depth),
    decreases items.len(),
{
    let prior = items.drop_last();
    if prior.len() == 0 {
        assert(compact_items(prior, depth).len() == 0);
    } else if i < prior.len() {
        lemma_compact_item(prior, depth, i);
        assert(prior[i] == items[i]);
    } else {
        lemma_compact_item(prior, depth, 0);
    }
}

/// The raw data of a result is left out, and every other member is kept in short.
pub proof fn law_raw_data_is_left_out(
    members: Seq<(Seq<char>, JsonView)>,
    key: Seq<char>,
    value: JsonView,
)
    ensures
        key == "raw_data"@ ==> compact_result(members.push((key, value))) == compact_result(members),
        key != "raw_data"@ ==> compact_result(members.push((key, value))) == compact_result(
            members,
        ).push((key, compact(value, 0))),
{
    assert(members.push((key, value)).drop_last() =~= members);
}

/// A result with a text to show is shown as that text; any other goes to the model.
pub proof fn law_display_text_is_shown(
    skill: Seq<char>,
    output: Seq<char>,
    members: Seq<(Seq<char>, JsonView)>,
    text: Seq<char>,
)
    ensures
        JsonView::Object(members).str_at("display_text"@) == Some(text) && trim(text).len() > 0 ==> {
            let shown = presentation(skill, output, Some(JsonView::Object(members)));
            &&& shown.direct_text == Some(trim(text))
            &&& shown.llm_payload is None
            &&& shown.fallback_text == trim(text)
        },
        JsonView::Object(members).str_at("display_text"@) is None ==> {
            let shown = presentation(skill, output, Some(JsonView::Object(members)));
            shown.direct_text is None && shown.llm_payload is Some
        },
        output.len() <= 4000 ==> presentation(skill, output, None).llm_payload == Some(output),
        output.len() > 4000 ==> presentation(skill, output, None).llm_payload == Some(
            output.take(4000),
        ),
{
}

} // verus!
