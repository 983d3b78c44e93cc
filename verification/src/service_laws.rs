//! What holds of the requests to services and of the answers that come in pieces.

use crate::chat::{
    native_calls, native_step, nonempty, tool_entries, tool_entry, with_tools, Choice, ToolCall,
    ToolCallMode,
};
use crate::json::{json_parsed, lookup};
use crate::ollama::OllamaMessageView;
use crate::prompt_laws::{holds, lemma_holds, lemma_holds_before, lemma_holds_behind};
use crate::requests::{base, gemini_request, ollama_message_json, ollama_request};
use crate::stream::{apply_pieces, finished, StreamResponseView, StreamView};
use crate::text::{decimal, trim_end_of};
use crate::text_laws::law_prefix_is_stripped;
use crate::types::{text_message, MessageView, ToolCallView};
use crate::value::{Json, JsonView};
use vstd::prelude::*;

verus! {

// ---------------------------------------------------------------------------
// Tools as text
// ---------------------------------------------------------------------------

/// A description of the tools goes behind the system text, or in front of all messages where there
/// is none; no message is lost, and no other is changed.
pub proof fn law_tools_are_described(
    messages: Seq<MessageView>,
    prompt: Seq<char>,
    text: Seq<char>,
)
    ensures
        messages.len() == 0 || messages[0].role != "system"@ ==> {
            let all = with_tools(messages, prompt);
            all.len() == messages.len() + 1 && all[0] == text_message("system"@, prompt)
                && all.skip(1) == messages
        },
        messages.len() > 0 && messages[0].role == "system"@ && messages[0].content == JsonView::Str(
            text,
        ) ==> {
            let all = with_tools(messages, prompt);
            &&& all.len() == messages.len() && all.skip(1) == messages.skip(1)
            &&& all[0].role == "system"@ && all[0].content == JsonView::Str(text + prompt)
        },
{
    let all = with_tools(messages, prompt);
    if messages.len() == 0 || messages[0].role != "system"@ {
        assert(all.skip(1) =~= messages);
    } else if messages[0].content == JsonView::Str(text) {
        assert(all.skip(1) =~= messages.skip(1));
    }
}

/// Every tool with a function is described, with its name and what it is for, in order.
pub proof fn law_every_tool_is_described(
    tools: Seq<JsonView>,
    i: int,
    func: JsonView,
    name: Seq<char>,
    about: Seq<char>,
)
    requires
        0 <= i < tools.len(),
        tools[i].get("function"@) == Some(func),
        func.str_at("name"@) == Some(name),
        func.str_at("description"@) == Some(about),
    ensures
        holds(tool_entries(tools), "### "@ + name + "\n"@ + about),
        tool_entries(tools) == tool_entries(tools.take(i)) + tool_entry(tools[i])
            + tool_entries(tools.skip(i + 1)),
    decreases tools.len(),
{
    let prior = tools.drop_last();
    let piece = "### "@ + name + "\n"@ + about;
    if i == tools.len() - 1 {
        assert(tools.take(i) =~= prior);
        assert(tools.skip(i + 1) =~= Seq::empty());
        assert(tool_entries(tools) =~= tool_entries(tools.take(i)) + tool_entry(tools[i])
            + tool_entries(tools.skip(i + 1)));
        let entry = tool_entry(tools[i]);
        assert(entry.take(piece.len() as int) =~= piece);
        assert(entry =~= Seq::empty() + piece + entry.skip(piece.len() as int));
        lemma_holds(Seq::empty(), piece, entry.skip(piece.len() as int));
        lemma_holds_behind(tool_entries(prior), entry, piece);
    } else {
        law_every_tool_is_described(prior, i, func, name, about);
        lemma_holds_before(tool_entries(prior), tool_entry(tools.last()), piece);
        assert(prior.take(i) =~= tools.take(i));
        assert(prior.skip(i + 1) =~= tools.skip(i + 1).drop_last());
        assert(tools.skip(i + 1).last() == tools.last());
        assert(tool_entries(tools) =~= tool_entries(tools.take(i)) + tool_entry(tools[i])
            + tool_entries(tools.skip(i + 1)));
    }
}

// ---------------------------------------------------------------------------
// Answers
// ---------------------------------------------------------------------------

/// The calls of an answer are taken over one by one, with their ids, names and arguments.
pub proof fn law_native_calls(calls: Vec<ToolCall>, i: int)
    requires
        0 <= i < calls@.len(),
    ensures
        native_calls(Some(calls)).len() == calls@.len(),
        native_calls(Some(calls))[i].id == calls@[i].id@,
        native_calls(Some(calls))[i].name == calls@[i].name@,
        json_parsed(calls@[i].arguments@) is Some ==> native_calls(Some(calls))[i].arguments
            == json_parsed(calls@[i].arguments@)->0,
{
}

/// An answer with calls of its own, or with calls in its text, asks for exactly those; one that
/// only says something says it; one that says nothing is asked for again as text, unless tools are
/// offered natively only.
pub proof fn law_native_answer(
    choice: Choice,
    usage: Option<Json>,
    mode: ToolCallMode,
    calls: Seq<ToolCallView>,
    in_text: (Seq<char>, Seq<ToolCallView>),
)
    requires
        choice.message.content is Some,
    ensures
        ({
            let text = choice.message.content->0@;
            let step = native_step(choice, usage, mode, calls, in_text);
            &&& calls.len() > 0 ==> step is Answer && step->response.tool_calls == calls
                && step->response.content == nonempty(text) && step->mode == mode
            &&& calls.len() == 0 && in_text.1.len() > 0 ==> step is Answer
                && step->response.tool_calls == in_text.1 && step->response.content == nonempty(
                in_text.0,
            ) && step->response.finish_reason == "tool_calls"@
            &&& calls.len() == 0 && in_text.1.len() == 0 && text.len() > 0 ==> step is Answer
                && step->response.tool_calls.len() == 0 && step->response.content == Some(text)
            &&& calls.len() == 0 && in_text.1.len() == 0 && text.len() == 0 && mode
                != ToolCallMode::Native ==> step is AskAsText
        }),
{
}

/// What the pieces of an answer say, one behind the other.
pub open spec fn said(pieces: Seq<StreamResponseView>) -> Seq<char>
    decreases pieces.len(),
{
    if pieces.len() == 0 {
        Seq::empty()
    } else {
        said(pieces.drop_last()) + match pieces.last().choice {
            Some(choice) => match choice.content {
                Some(text) => text,
                None => Seq::empty(),
            },
            None => Seq::empty(),
        }
    }
}

pub open spec fn reasoned(pieces: Seq<StreamResponseView>) -> Seq<char>
    decreases pieces.len(),
{
    if pieces.len() == 0 {
        Seq::empty()
    } else {
        reasoned(pieces.drop_last()) + match pieces.last().choice {
            Some(choice) => match choice.reasoning_content {
                Some(text) => text,
                None => Seq::empty(),
            },
            None => Seq::empty(),
        }
    }
}

/// An answer that came in pieces says all that its pieces say, in order, and has reasoned all that
/// they have.
pub proof fn law_all_pieces_are_heard(state: StreamView, pieces: Seq<StreamResponseView>)
    ensures
        apply_pieces(state, pieces).0.content == state.content + said(pieces),
        apply_pieces(state, pieces).0.reasoning == state.reasoning + reasoned(pieces),
        state.content.len() == 0 && said(pieces).len() > 0 ==> finished(
            apply_pieces(state, pieces).0,
        ).content == Some(said(pieces)),
    decreases pieces.len(),
{
    if pieces.len() == 0 {
        assert(state.content + said(pieces) =~= state.content);
        assert(state.reasoning + reasoned(pieces) =~= state.reasoning);
    } else {
        law_all_pieces_are_heard(state, pieces.drop_last());
        assert(apply_pieces(state, pieces).0.content =~= state.content + said(pieces));
        assert(apply_pieces(state, pieces).0.reasoning =~= state.reasoning + reasoned(pieces));
    }
    if state.content.len() == 0 {
        assert(state.content + said(pieces) =~= said(pieces));
    }
}

// ---------------------------------------------------------------------------
// Requests
// ---------------------------------------------------------------------------

/// A request holds the turns, the system text, the tools and how long the answer may be, each under
/// its name; without tools or system text it names none.
pub proof fn law_gemini_request(
    system: Option<Seq<char>>,
    contents: Seq<JsonView>,
    tools: Seq<JsonView>,
    max_tokens: nat,
    temperature: JsonView,
)
    ensures
        ({
            let r = gemini_request(system, contents, tools, max_tokens, temperature);
            &&& r.get("contents"@) == Some(JsonView::Array(contents))
            &&& r.get("generationConfig"@) is Some
            &&& r.get("generationConfig"@)->0.get("maxOutputTokens"@) == Some(
                JsonView::Number(decimal(max_tokens)),
            )
            &&& r.get("generationConfig"@)->0.get("temperature"@) == Some(temperature)
            &&& tools.len() > 0 ==> r.get("tools"@) == Some(JsonView::Array(tools))
            &&& tools.len() == 0 ==> r.get("tools"@) is None
            &&& system is None ==> r.get("systemInstruction"@) is None
            &&& system is Some ==> {
                let s = r.get("systemInstruction"@);
                &&& s is Some && s->0.get("parts"@) is Some && s->0.get("parts"@)->0 is Array
                &&& s->0.get("parts"@)->0->Array_0.len() == 1
                &&& s->0.get("parts"@)->0->Array_0[0].str_at("text"@) == system
            }
        }),
{
    reveal_strlit("contents");
    reveal_strlit("generationConfig");
    reveal_strlit("systemInstruction");
    reveal_strlit("tools");
    reveal_strlit("maxOutputTokens");
    reveal_strlit("temperature");
    assert("contents"@.len() == 8 && "generationConfig"@.len() == 16);
    assert("systemInstruction"@.len() == 17 && "tools"@.len() == 5);
    assert("maxOutputTokens"@.len() == 15 && "temperature"@.len() == 11);
    reveal_with_fuel(lookup, 5);
    let m = gemini_request(system, contents, tools, max_tokens, temperature)->Object_0;
    let settings = m[1].1->Object_0;
    assert(settings.skip(1)[0] == settings[1]);
    let m1 = m.skip(1);
    let m2 = m1.skip(1);
    let m3 = m2.skip(1);
    assert(m1[0] == m[1]);
    if m.len() > 2 {
        assert(m2[0] == m[2]);
    }
    if m.len() > 3 {
        assert(m3[0] == m[3]);
    }
}

/// A request holds the messages, the model without the name of the service, the tools, and whether
/// the answer is to come in pieces.
pub proof fn law_ollama_request(
    model: Seq<char>,
    messages: Seq<JsonView>,
    tools: Seq<JsonView>,
    stream: bool,
    max_tokens: nat,
    temperature: JsonView,
)
    ensures
        ({
            let r = ollama_request("ollama/"@ + model, messages, tools, stream, max_tokens, temperature);
            &&& r.get("messages"@) == Some(JsonView::Array(messages))
            &&& r.str_at("model"@) == Some(model)
            &&& r.get("stream"@) == Some(JsonView::Bool(stream))
            &&& r.get("options"@) is Some
            &&& r.get("options"@)->0.get("num_predict"@) == Some(
                JsonView::Number(decimal(max_tokens)),
            )
            &&& r.get("options"@)->0.get("temperature"@) == Some(temperature)
            &&& tools.len() > 0 ==> r.get("tools"@) == Some(JsonView::Array(tools))
            &&& tools.len() == 0 ==> r.get("tools"@) is None
        }),
{
    reveal_strlit("messages");
    reveal_strlit("model");
    reveal_strlit("options");
    reveal_strlit("stream");
    reveal_strlit("tools");
    reveal_strlit("num_predict");
    reveal_strlit("temperature");
    assert("messages"@.len() == 8 && "model"@[0] == 'm' && "model"@.len() == 5);
    assert("options"@.len() == 7 && "stream"@.len() == 6 && "tools"@[0] == 't' && "tools"@.len() == 5);
    assert("num_predict"@[0] == 'n' && "temperature"@[0] == 't');
    law_prefix_is_stripped("ollama/"@ + model, "ollama/"@, model);
    reveal_with_fuel(lookup, 6);
    let m = ollama_request(
        "ollama/"@ + model,
        messages,
        tools,
        stream,
        max_tokens,
        temperature,
    )->Object_0;
    let options = m[2].1->Object_0;
    assert(options.skip(1)[0] == options[1]);
    let m1 = m.skip(1);
    let m2 = m1.skip(1);
    let m3 = m2.skip(1);
    let m4 = m3.skip(1);
    assert(m1[0] == m[1] && m2[0] == m[2] && m3[0] == m[3]);
    if m.len() > 4 {
        assert(m4[0] == m[4]);
    }
}

/// A message is sent with its role, its text and its images.
pub proof fn law_ollama_message_json(message: OllamaMessageView)
    ensures
        ollama_message_json(message).str_at("role"@) == Some(message.role),
        ollama_message_json(message).str_at("content"@) == Some(message.content),
        message.images is Some ==> ollama_message_json(message).get("images"@) == Some(
            crate::json::strings_json(message.images->0),
        ),
        message.images is None ==> ollama_message_json(message).get("images"@) is None,
{
    reveal_strlit("role");
    reveal_strlit("content");
    reveal_strlit("images");
    assert("role"@.len() == 4 && "content"@.len() == 7 && "images"@.len() == 6);
    reveal_with_fuel(lookup, 4);
    let m = ollama_message_json(message)->Object_0;
    let m1 = m.skip(1);
    let m2 = m1.skip(1);
    assert(m1[0] == m[1]);
    if m.len() > 2 {
        assert(m2[0] == m[2]);
    }
}

/// Slashes at the end of an address do not matter.
pub proof fn law_slashes_at_the_end(address: Seq<char>, usual: Seq<char>)
    ensures
        base(Some(address.push('/')), usual) == base(Some(address), usual),
        address.len() > 0 && address.last() != '/' ==> base(Some(address), usual) == address,
        base(None, usual) == trim_end_of(usual, '/'),
{
    assert(address.push('/').drop_last() =~= address);
}

} // verus!
