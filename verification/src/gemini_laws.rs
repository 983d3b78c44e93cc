//! What holds of the requests to a service that takes turns made of parts.

use crate::gemini::{
    all_turns, assistant_parts, block_part, block_parts, call_part, data_url, declaration,
    declarations, merged, parts_of, result_part, text_part, tool_group, turn_json, TurnView,
};
use crate::json::{json_parsed, lookup};
use crate::text::{split, strip_prefix};
use crate::text_laws::{lacks, law_prefix_is_stripped, law_split_at_the_first, lemma_lacks_leads};
use crate::types::{MessageView, ToolCallView};
use crate::value::JsonView;
use vstd::prelude::*;

verus! {

// ---------------------------------------------------------------------------
// Content
// ---------------------------------------------------------------------------

/// A URL that is written out of a media type and data is read back; every URL that can be read is
/// written so.
pub proof fn law_data_url_reads_back(mime: Seq<char>, data: Seq<char>, url: Seq<char>)
    ensures
        lacks(mime, ';') ==> data_url("data:"@ + mime + ";"@ + "base64,"@ + data) == Some(
            (mime, data),
        ),
        data_url(url) == Some((mime, data)) ==> url == "data:"@ + mime + ";"@ + "base64,"@ + data,
{
    reveal_strlit(";");
    if lacks(mime, ';') {
        let tail = "base64,"@ + data;
        let rest = mime + ";"@ + tail;
        let whole = "data:"@ + mime + ";"@ + "base64,"@ + data;
        assert(whole =~= "data:"@ + rest);
        law_prefix_is_stripped(whole, "data:"@, rest);
        lemma_lacks_leads(mime, ";"@);
        law_split_at_the_first(mime, ";"@, tail);
        law_prefix_is_stripped(tail, "base64,"@, data);
    }
    if data_url(url) == Some((mime, data)) {
        let rest = strip_prefix(url, "data:"@)->0;
        let (m, tail) = split(rest, ";"@)->0;
        law_prefix_is_stripped(url, "data:"@, rest);
        crate::text::lemma_split(rest, ";"@);
        law_prefix_is_stripped(tail, "base64,"@, data);
        assert(url =~= "data:"@ + mime + ";"@ + "base64,"@ + data);
    }
}

/// For every media type without a semicolon and all data, an image block with the URL
/// `data:type;base64,data` becomes a part whose inline data has that type and that data.
pub proof fn law_image_becomes_inline_data(block: JsonView, mime: Seq<char>, data: Seq<char>)
    requires
        lacks(mime, ';'),
        block.str_at("type"@) == Some("image_url"@),
        block.get("image_url"@) is Some,
        block.get("image_url"@)->0.str_at("url"@) == Some(
            "data:"@ + mime + ";"@ + "base64,"@ + data,
        ),
    ensures
        block_part(block) is Some,
        block_part(block)->0.get("inlineData"@) is Some,
        block_part(block)->0.get("inlineData"@)->0.str_at("mimeType"@) == Some(mime),
        block_part(block)->0.get("inlineData"@)->0.str_at("data"@) == Some(data),
{
    reveal_strlit("text");
    reveal_strlit("image_url");
    reveal_strlit("data");
    reveal_strlit("mimeType");
    assert("text"@.len() == 4 && "image_url"@.len() == 9);
    assert("data"@.len() == 4 && "mimeType"@.len() == 8);
    reveal_with_fuel(lookup, 3);
    law_data_url_reads_back(mime, data, Seq::empty());
    let inner = block_part(block)->0.get("inlineData"@)->0->Object_0;
    assert(inner.skip(1)[0] == inner[1]);
}

/// A text block becomes a part with that text; a block of another kind, or without what its kind
/// asks for, becomes none.
pub proof fn law_text_block_becomes_text(block: JsonView, text: Seq<char>)
    ensures
        block.str_at("type"@) == Some("text"@) && block.str_at("text"@) == Some(text)
            ==> block_part(block) is Some && block_part(block)->0.str_at("text"@) == Some(text),
        block.str_at("type"@) == Some("text"@) && block.str_at("text"@) is None ==> block_part(
            block,
        ) is None,
        block.str_at("type"@) != Some("text"@) && block.str_at("type"@) != Some("image_url"@)
            ==> block_part(block) is None,
{
    reveal_strlit("text");
    reveal_strlit("image_url");
    assert("text"@.len() == 4 && "image_url"@.len() == 9);
}

/// The blocks of a message become parts in order, each by itself.
pub proof fn law_blocks_in_order(a: Seq<JsonView>, b: Seq<JsonView>)
    ensures
        block_parts(a + b) == block_parts(a) + block_parts(b),
        b.len() == 1 ==> block_parts(b) == match block_part(b[0]) {
            Some(part) => seq![part],
            None => Seq::<JsonView>::empty(),
        },
    decreases b.len(),
{
    reveal_with_fuel(block_parts, 2);
    if b.len() == 1 {
        assert(b.drop_last() =~= Seq::empty());
        assert(block_parts(b) =~= match block_part(b[0]) {
            Some(part) => seq![part],
            None => Seq::<JsonView>::empty(),
        });
    }
    if b.len() == 0 {
        assert(a + b =~= a);
        assert(block_parts(a) + block_parts(b) =~= block_parts(a));
    } else {
        law_blocks_in_order(a, b.drop_last());
        assert((a + b).drop_last() =~= a + b.drop_last());
        assert((a + b).last() == b.last());
        assert(block_parts(a + b) =~= block_parts(a) + block_parts(b));
    }
}

/// The part of a call has its name and its arguments, and its thought signature where it has one.
pub proof fn law_call_part_holds_the_call(call: ToolCallView)
    ensures
        call_part(call).get("functionCall"@) is Some,
        call_part(call).get("functionCall"@)->0.str_at("name"@) == Some(call.name),
        call_part(call).get("functionCall"@)->0.get("args"@) == Some(call.arguments),
        call_part(call).str_at("thoughtSignature"@) == call.thought_signature,
{
    reveal_strlit("functionCall");
    reveal_strlit("thoughtSignature");
    reveal_strlit("args");
    reveal_strlit("name");
    assert("functionCall"@.len() == 12 && "thoughtSignature"@.len() == 16);
    assert("args"@[0] == 'a' && "name"@[0] == 'n');
    reveal_with_fuel(lookup, 3);
    let outer = call_part(call)->Object_0;
    let inner = outer[0].1->Object_0;
    assert(inner.skip(1)[0] == inner[1]);
    if outer.len() == 2 {
        assert(outer.skip(1)[0] == outer[1]);
        assert(outer.skip(1).skip(1).len() == 0);
    }
}

/// What a model said stands before what it called, and the calls stand in order; a turn of the
/// model is never empty.
pub proof fn law_assistant_parts(message: MessageView, i: int)
    requires
        message.tool_calls is Some,
        0 <= i < message.tool_calls->0.len(),
    ensures
        ({
            let said: int = if message.content matches JsonView::Str(text) && text.len() > 0 {
                1
            } else {
                0
            };
            let parts = assistant_parts(message);
            &&& parts.len() == said + message.tool_calls->0.len()
            &&& said == 1 ==> parts[0].str_at("text"@) == Some(message.content->Str_0)
            &&& parts[said + i] == call_part(message.tool_calls->0[i])
        }),
{
}

/// The part of a result names its tool, or else its call, and holds the result: as JSON where it
/// is JSON, and as text where it is not.
pub proof fn law_result_part_holds_the_result(message: MessageView, text: Seq<char>)
    requires
        message.content == JsonView::Str(text),
    ensures
        ({
            let response = result_part(message, json_parsed(text)).get("functionResponse"@);
            &&& response is Some
            &&& message.name is Some ==> response->0.str_at("name"@) == message.name
            &&& message.name is None && message.tool_call_id is Some ==> response->0.str_at(
                "name"@,
            ) == message.tool_call_id
            &&& json_parsed(text) is Some ==> response->0.get("response"@) == json_parsed(text)
            &&& json_parsed(text) is None ==> response->0.get("response"@) is Some
                && response->0.get("response"@)->0.str_at("result"@) == Some(text)
        }),
{
    reveal_strlit("name");
    reveal_strlit("response");
    assert("name"@.len() == 4 && "response"@.len() == 8);
    reveal_with_fuel(lookup, 3);
    let inner = result_part(message, json_parsed(text)).get("functionResponse"@)->0->Object_0;
    assert(inner.skip(1)[0] == inner[1]);
}

// ---------------------------------------------------------------------------
// Turns
// ---------------------------------------------------------------------------

/// System texts are joined, in order and with an empty line between them, and make no turn.
pub proof fn law_system_texts_are_joined(
    messages: Seq<MessageView>,
    message: MessageView,
    text: Seq<char>,
)
    requires
        message.role == "system"@,
        message.content == JsonView::Str(text),
    ensures
        ({
            let before = all_turns(messages);
            let after = all_turns(messages.push(message));
            &&& after.1 == before.1
            &&& before.0 is None ==> after.0 == Some(text)
            &&& before.0 is Some ==> after.0 == Some(before.0->0 + "\n\n"@ + text)
        }),
{
    assert(messages.push(message).drop_last() =~= messages);
}

/// A message of the user or of the model adds one turn at the end and changes nothing before it.
pub proof fn law_messages_make_turns(messages: Seq<MessageView>, message: MessageView)
    requires
        message.role == "user"@ || message.role == "assistant"@,
    ensures
        ({
            let before = all_turns(messages);
            let after = all_turns(messages.push(message));
            &&& after.0 == before.0
            &&& after.1.len() == before.1.len() + 1
            &&& after.1.drop_last() == before.1
            &&& message.role == "user"@ ==> after.1.last().role == "user"@
            &&& message.role == "assistant"@ ==> after.1.last() == (TurnView {
                role: "model"@,
                parts: assistant_parts(message),
            })
            &&& message.role == "user"@ ==> match message.content {
                JsonView::Array(blocks) => if block_parts(blocks).len() > 0 {
                    after.1.last().parts == block_parts(blocks)
                } else {
                    after.1.last().parts == seq![text_part(Seq::empty())]
                },
                JsonView::Str(text) => after.1.last().parts == seq![text_part(text)],
                _ => after.1.last().parts == seq![text_part(Seq::empty())],
            }
        }),
{
    reveal_strlit("system");
    reveal_strlit("user");
    reveal_strlit("assistant");
    assert("system"@[0] == 's' && "user"@[0] == 'u' && "assistant"@[0] == 'a');
    let before = all_turns(messages);
    assert(messages.push(message).drop_last() =~= messages);
    let after = all_turns(messages.push(message));
    assert(after.1.drop_last() =~= before.1);
}

/// Results that follow each other stand in one turn, in order; the first of them opens it.
pub proof fn law_results_share_a_turn(
    messages: Seq<MessageView>,
    first: MessageView,
    second: MessageView,
    one: Seq<char>,
    two: Seq<char>,
)
    requires
        first.role == "tool"@,
        second.role == "tool"@,
        first.content == JsonView::Str(one),
        second.content == JsonView::Str(two),
        messages.len() > 0 ==> messages.last().role != "tool"@,
        all_turns(messages).1.len() > 0 ==> all_turns(messages).1.last().parts.len() > 0
            && all_turns(messages).1.last().parts[0].get("functionResponse"@) is None,
    ensures
        ({
            let before = all_turns(messages);
            let after = all_turns(messages.push(first).push(second));
            &&& after.0 == before.0
            &&& after.1 == before.1.push(
                TurnView {
                    role: "user"@,
                    parts: seq![
                        result_part(first, json_parsed(one)),
                        result_part(second, json_parsed(two)),
                    ],
                },
            )
        }),
{
    reveal_strlit("system");
    reveal_strlit("user");
    reveal_strlit("assistant");
    reveal_strlit("tool");
    assert("system"@[0] == 's' && "user"@[0] == 'u' && "assistant"@[0] == 'a' && "tool"@[0] == 't');
    reveal_with_fuel(lookup, 2);
    let before = all_turns(messages);
    assert(messages.push(first).drop_last() =~= messages);
    assert(messages.push(first).push(second).drop_last() =~= messages.push(first));
    let middle = all_turns(messages.push(first));
    let a = result_part(first, json_parsed(one));
    let b = result_part(second, json_parsed(two));
    assert(middle.1 == before.1.push(TurnView { role: "user"@, parts: seq![a] }));
    assert(middle.1.last().parts[0] == a);
    assert(a.get("functionResponse"@) is Some);
    let after = all_turns(messages.push(first).push(second));
    assert(seq![a].push(b) =~= seq![a, b]);
    assert(after.1 =~= before.1.push(TurnView { role: "user"@, parts: seq![a, b] }));
}

/// Merging turns of the same role loses no part and keeps their order.
pub proof fn law_merging_keeps_all_parts(turns: Seq<TurnView>)
    ensures
        parts_of(merged(turns)) == parts_of(turns),
    decreases turns.len(),
{
    if turns.len() > 0 {
        law_merging_keeps_all_parts(turns.drop_last());
        let before = merged(turns.drop_last());
        let turn = turns.last();
        let after = merged(turns);
        if before.len() > 0 && before.last().role == turn.role {
            assert(after.drop_last() =~= before.drop_last());
            assert(parts_of(after) =~= parts_of(before.drop_last()) + before.last().parts
                + turn.parts);
        } else {
            assert(after.drop_last() =~= before);
        }
    }
}

/// Turns that alternate already stay as they are.
pub proof fn law_alternating_turns_stay(turns: Seq<TurnView>)
    requires
        forall|i: int|
            0 < i < turns.len() ==> (#[trigger] turns[i]).role != turns[i - 1].role,
    ensures
        merged(turns) == turns,
    decreases turns.len(),
{
    if turns.len() > 0 {
        let prior = turns.drop_last();
        assert forall|i: int| 0 < i < prior.len() implies (#[trigger] prior[i]).role != prior[i
            - 1].role by {
            assert(prior[i] == turns[i] && prior[i - 1] == turns[i - 1]);
        }
        law_alternating_turns_stay(prior);
        if prior.len() > 0 {
            assert(turns[turns.len() - 1].role != turns[turns.len() - 2].role);
        }
        assert(merged(turns) =~= turns);
    } else {
        assert(merged(turns) =~= turns);
    }
}

/// A turn is sent with its role and its parts.
pub proof fn law_turn_is_sent(turn: TurnView)
    ensures
        turn_json(turn).str_at("role"@) == Some(turn.role),
        turn_json(turn).get("parts"@) == Some(JsonView::Array(turn.parts)),
{
    reveal_strlit("role");
    reveal_strlit("parts");
    assert("role"@.len() == 4 && "parts"@.len() == 5);
    reveal_with_fuel(lookup, 3);
    let members = turn_json(turn)->Object_0;
    assert(members.skip(1)[0] == members[1]);
}

// ---------------------------------------------------------------------------
// Tools
// ---------------------------------------------------------------------------

/// A tool is declared with the name, the description and the parameters of its function; without a
/// name it is not declared.
pub proof fn law_tool_is_declared(tool: JsonView, func: JsonView)
    requires
        tool.get("function"@) == Some(func),
    ensures
        declaration(tool) is Some <==> func.str_at("name"@) is Some,
        declaration(tool) is Some ==> {
            let d = declaration(tool)->0;
            &&& d.str_at("name"@) == func.str_at("name"@)
            &&& func.str_at("description"@) is Some ==> d.str_at("description"@) == func.str_at(
                "description"@,
            )
            &&& func.str_at("description"@) is None ==> d.str_at("description"@) == Some(
                Seq::<char>::empty(),
            )
            &&& func.get("parameters"@) is Some ==> d.get("parameters"@) == func.get("parameters"@)
            &&& func.get("parameters"@) is None ==> d.get("parameters"@) is Some
                && d.get("parameters"@)->0.str_at("type"@) == Some("object"@)
        },
{
    reveal_strlit("name");
    reveal_strlit("description");
    reveal_strlit("parameters");
    reveal_strlit("properties");
    reveal_strlit("type");
    assert("name"@.len() == 4 && "description"@.len() == 11 && "parameters"@.len() == 10);
    assert("properties"@.len() == 10 && "type"@.len() == 4);
    reveal_with_fuel(lookup, 4);
    if declaration(tool) is Some {
        let members = declaration(tool)->0->Object_0;
        assert(members.skip(1)[0] == members[1]);
        assert(members.skip(1).skip(1)[0] == members[2]);
        let basic = crate::gemini::default_parameters()->Object_0;
        assert(basic.skip(1)[0] == basic[1]);
    }
}

/// Tools are declared in order, each by itself, in one group; no tool, no group.
pub proof fn law_tools_in_order(a: Seq<JsonView>, b: Seq<JsonView>)
    ensures
        declarations(a + b) == declarations(a) + declarations(b),
        a.len() == 1 ==> declarations(a) == match declaration(a[0]) {
            Some(d) => seq![d],
            None => Seq::<JsonView>::empty(),
        },
        declarations(a).len() == 0 ==> tool_group(a).len() == 0,
        declarations(a).len() > 0 ==> tool_group(a).len() == 1 && tool_group(a)[0].get(
            "functionDeclarations"@,
        ) == Some(JsonView::Array(declarations(a))),
    decreases b.len(),
{
    reveal_with_fuel(declarations, 2);
    if a.len() == 1 {
        assert(a.drop_last() =~= Seq::empty());
        assert(declarations(a) =~= match declaration(a[0]) {
            Some(d) => seq![d],
            None => Seq::<JsonView>::empty(),
        });
    }
    if b.len() == 0 {
        assert(a + b =~= a);
        assert(declarations(a) + declarations(b) =~= declarations(a));
    } else {
        law_tools_in_order(a, b.drop_last());
        assert((a + b).drop_last() =~= a + b.drop_last());
        assert((a + b).last() == b.last());
        assert(declarations(a + b) =~= declarations(a) + declarations(b));
    }
}

} // verus!
