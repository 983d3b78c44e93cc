//! What holds of replies, paths, files, accounts and summaries.

use crate::events::{notification_text, NotificationRequest};
use crate::lines::complete_lines;
use crate::manager::{account_with, picked};
use crate::media::{
    first_sendable, media_among, media_at, media_in, media_path, sendable, MentionedFile,
};
use crate::mid_loop::{
    last_lines, last_reply, next_question, short_content, summary_line, summary_lines, with_dots,
};
use crate::paths::{
    after_last, extension_of_name, file_name, last_index, names_part, parts_among, path_text,
    pieces, tool_path, walked, written, PathView,
};
use crate::prompt_laws::{holds, lemma_holds};
use crate::reply::{call_slot, collected, complete, doubled, retry_delay, ReplyView};
use crate::text::{join, trim};
use crate::text_laws::{
    lacks, law_join, law_no_split_without_pattern, law_prefix_is_stripped, law_split_at_the_first,
    lemma_lacks_leads,
};
use crate::types::{AccumulatorView, ChunkView, MessageView, ResponseView};
use crate::value::JsonView;
use vstd::prelude::*;

verus! {

// ---------------------------------------------------------------------------
// Replies
// ---------------------------------------------------------------------------

/// The arguments that were collected for a call.
pub open spec fn arguments_of(calls: Seq<AccumulatorView>, id: Seq<char>) -> Option<Seq<char>>
    decreases calls.len(),
{
    if calls.len() == 0 {
        None
    } else if calls[0].id == id {
        Some(calls[0].arguments)
    } else {
        arguments_of(calls.skip(1), id)
    }
}

proof fn lemma_arguments_of(calls: Seq<AccumulatorView>, id: Seq<char>)
    ensures
        0 <= call_slot(calls, id) <= calls.len(),
        call_slot(calls, id) < calls.len() ==> calls[call_slot(calls, id)].id == id && arguments_of(
            calls,
            id,
        ) == Some(calls[call_slot(calls, id)].arguments),
        call_slot(calls, id) == calls.len() <==> arguments_of(calls, id) is None,
    decreases calls.len(),
{
    if calls.len() > 0 && calls[0].id != id {
        lemma_arguments_of(calls.skip(1), id);
    }
}

proof fn lemma_arguments_updated(
    calls: Seq<AccumulatorView>,
    at: int,
    call: AccumulatorView,
    id: Seq<char>,
)
    requires
        0 <= at < calls.len(),
        call.id == calls[at].id,
        at == call_slot(calls, call.id),
    ensures
        id == call.id ==> arguments_of(calls.update(at, call), id) == Some(call.arguments),
        id != call.id ==> arguments_of(calls.update(at, call), id) == arguments_of(calls, id),
    decreases calls.len(),
{
    let now = calls.update(at, call);
    if at == 0 {
        assert(now.skip(1) =~= calls.skip(1));
    } else {
        assert(calls[0].id != call.id);
        assert(now.skip(1) =~= calls.skip(1).update(at - 1, call));
        lemma_arguments_updated(calls.skip(1), at - 1, call, id);
    }
}

proof fn lemma_arguments_pushed(calls: Seq<AccumulatorView>, call: AccumulatorView, id: Seq<char>)
    ensures
        arguments_of(calls.push(call), id) == match arguments_of(calls, id) {
            Some(text) => Some(text),
            None => if call.id == id {
                Some(call.arguments)
            } else {
                None
            },
        },
    decreases calls.len(),
{
    let all = calls.push(call);
    if calls.len() == 0 {
        reveal_with_fuel(arguments_of, 2);
    } else {
        assert(all[0] == calls[0]);
        assert(all.skip(1) =~= calls.skip(1).push(call));
        lemma_arguments_pushed(calls.skip(1), call, id);
    }
}

/// A call that starts has no arguments yet, each piece of arguments goes to the end of those of its
/// call, and the arguments of other calls stay.
pub proof fn law_arguments_are_collected(
    reply: ReplyView,
    index: int,
    id: Seq<char>,
    name: Seq<char>,
    delta: Seq<char>,
    other: Seq<char>,
)
    requires
        other != id,
    ensures
        arguments_of(reply.calls, id) is None ==> arguments_of(
            collected(reply, ChunkView::ToolCallStart { index, id, name }).calls,
            id,
        ) == Some(Seq::<char>::empty()),
        arguments_of(reply.calls, id) is Some ==> arguments_of(
            collected(reply, ChunkView::ToolCallDelta { index, id, delta }).calls,
            id,
        ) == Some(arguments_of(reply.calls, id)->0 + delta),
        arguments_of(collected(reply, ChunkView::ToolCallStart { index, id, name }).calls, other)
            == arguments_of(reply.calls, other),
        arguments_of(collected(reply, ChunkView::ToolCallDelta { index, id, delta }).calls, other)
            == arguments_of(reply.calls, other),
{
    lemma_arguments_of(reply.calls, id);
    let at = call_slot(reply.calls, id);
    let fresh = AccumulatorView { id, name, arguments: Seq::empty() };
    if at < reply.calls.len() {
        let held = reply.calls[at];
        lemma_arguments_updated(reply.calls, at, AccumulatorView { name, ..held }, id);
        lemma_arguments_updated(reply.calls, at, AccumulatorView { name, ..held }, other);
        let grown = AccumulatorView { arguments: held.arguments + delta, ..held };
        lemma_arguments_updated(reply.calls, at, grown, id);
        lemma_arguments_updated(reply.calls, at, grown, other);
    } else {
        lemma_arguments_pushed(reply.calls, fresh, id);
        lemma_arguments_pushed(reply.calls, fresh, other);
    }
}

/// A reply that is complete says what was collected, and asks for each call that was; only where
/// nothing was collected does it say what came with its end.
pub proof fn law_complete_reply(reply: ReplyView, response: ResponseView, i: int)
    ensures
        reply.content.len() > 0 ==> complete(reply, response).content == Some(reply.content),
        reply.content.len() == 0 ==> complete(reply, response).content == response.content,
        reply.calls.len() == 0 ==> complete(reply, response).tool_calls == response.tool_calls,
        reply.calls.len() > 0 ==> complete(reply, response).tool_calls.len() == reply.calls.len(),
        0 <= i < reply.calls.len() ==> complete(reply, response).tool_calls[i].id
            == reply.calls[i].id && complete(reply, response).tool_calls[i].name
            == reply.calls[i].name,
{
}

/// The first wait is the one that was set; each further wait is twice as long as the one before, up
/// to the fifth, and no longer after that.
pub proof fn law_waits_double(base_ms: nat, attempt: nat)
    requires
        attempt >= 1,
    ensures
        retry_delay(base_ms, 1) == base_ms,
        attempt < 5 ==> retry_delay(base_ms, attempt + 1) == 2 * retry_delay(base_ms, attempt),
        attempt >= 5 ==> retry_delay(base_ms, attempt) == 16 * base_ms,
{
    reveal_with_fuel(doubled, 6);
}

// ---------------------------------------------------------------------------
// Paths
// ---------------------------------------------------------------------------

/// The parts of a path: names without a slash.
pub open spec fn plain_parts(parts: Seq<Seq<char>>) -> bool {
    forall|i: int| 0 <= i < parts.len() ==> names_part(#[trigger] parts[i]) && lacks(parts[i], '/')
}

proof fn lemma_pieces_joined(parts: Seq<Seq<char>>)
    requires
        parts.len() > 0,
        plain_parts(parts),
    ensures
        pieces(join(parts, "/"@)) == parts,
    decreases parts.len(),
{
    reveal_strlit("/");
    let first = parts[0];
    assert(names_part(parts[0]) && lacks(parts[0], '/'));
    if parts.len() == 1 {
        assert(parts =~= seq![first]);
        assert(join(parts, "/"@) == first);
        law_no_split_without_pattern(first, "/"@);
    } else {
        let rest = parts.skip(1);
        assert(parts =~= seq![first] + rest);
        law_join(seq![first], rest, "/"@);
        assert(join(seq![first], "/"@) == first);
        assert forall|i: int| 0 <= i < rest.len() implies names_part(#[trigger] rest[i]) && lacks(
            rest[i],
            '/',
        ) by {
            assert(rest[i] == parts[i + 1]);
        }
        lemma_pieces_joined(rest);
        lemma_lacks_leads(first, "/"@);
        law_split_at_the_first(first, "/"@, join(rest, "/"@));
    }
}

proof fn lemma_all_parts(list: Seq<Seq<char>>)
    requires
        forall|i: int| 0 <= i < list.len() ==> names_part(#[trigger] list[i]),
    ensures
        parts_among(list) == list,
        parts_among(seq![Seq::<char>::empty()] + list) == list,
    decreases list.len(),
{
    let empty = Seq::<char>::empty();
    let all = seq![empty] + list;
    if list.len() == 0 {
        assert(all.drop_last() =~= Seq::empty());
        reveal_with_fuel(parts_among, 2);
        assert(parts_among(all) =~= list);
        assert(parts_among(list) =~= list);
    } else {
        let prior = list.drop_last();
        assert forall|i: int| 0 <= i < prior.len() implies names_part(#[trigger] prior[i]) by {
            assert(prior[i] == list[i]);
        }
        lemma_all_parts(prior);
        assert(all.drop_last() =~= seq![empty] + prior);
        assert(all.last() == list.last());
        assert(names_part(list[list.len() - 1]));
        assert(parts_among(list) =~= list);
        assert(parts_among(all) =~= list);
    }
}

/// A path that was taken apart and written down is read back.
pub proof fn law_path_reads_back(path: PathView)
    requires
        path.parts.len() > 0,
        plain_parts(path.parts),
    ensures
        written(path_text(path)) == path,
{
    reveal_strlit("/");
    let inner = join(path.parts, "/"@);
    lemma_pieces_joined(path.parts);
    lemma_all_parts(path.parts);
    if path.rooted {
        let text = path_text(path);
        let none = Seq::<char>::empty();
        lemma_lacks_leads(none, "/"@);
        law_split_at_the_first(none, "/"@, inner);
        assert(none + "/"@ + inner =~= text);
        assert(text[0] == '/');
    } else {
        let first = path.parts[0];
        assert(names_part(path.parts[0]) && lacks(path.parts[0], '/'));
        if path.parts.len() > 1 {
            let rest = path.parts.skip(1);
            assert(path.parts =~= seq![first] + rest);
            law_join(seq![first], rest, "/"@);
            assert(join(seq![first], "/"@) == first);
        } else {
            assert(path.parts =~= seq![first]);
        }
        assert(inner[0] == first[0]);
    }
}

/// Going into a directory and back leads nowhere; a step that goes nowhere back is taken.
pub proof fn law_detours_lead_nowhere(parts: Seq<Seq<char>>, name: Seq<char>)
    requires
        name != ".."@,
    ensures
        walked(parts.push(name)) == walked(parts).push(name),
        walked(parts.push(name).push(".."@)) == walked(parts),
{
    assert(parts.push(name).drop_last() =~= parts);
    assert(parts.push(name).push(".."@).drop_last() =~= parts.push(name));
    let there = walked(parts.push(name));
    assert(there == walked(parts).push(name));
    assert(walked(parts.push(name).push(".."@)) == there.drop_last());
    assert(there.drop_last() =~= walked(parts));
}

proof fn lemma_last_index(s: Seq<char>, c: char, rest: Seq<char>)
    requires
        lacks(rest, c),
    ensures
        last_index(s.push(c) + rest, c) == Some(s.len() as int),
        last_index(rest, c) is None,
    decreases rest.len(),
{
    let all = s.push(c) + rest;
    if rest.len() == 0 {
        assert(all.last() == c);
    } else {
        let prior = rest.drop_last();
        assert forall|i: int| 0 <= i < prior.len() implies (#[trigger] prior[i]) != c by {
            assert(prior[i] == rest[i]);
        }
        lemma_last_index(s, c, prior);
        assert(all.drop_last() =~= s.push(c) + prior);
        assert(all.last() == rest[rest.len() - 1]);
    }
}

/// What follows the last mark is what was put behind it; the extension of a name is what follows
/// its last dot, if anything stands before that.
pub proof fn law_extension(name: Seq<char>, c: char, ext: Seq<char>)
    requires
        lacks(ext, c),
    ensures
        after_last(name.push(c) + ext, c) == ext,
        after_last(ext, c) == ext,
        c == '.' && name.len() > 0 ==> extension_of_name(name.push(c) + ext) == Some(ext),
        c == '.' ==> extension_of_name(ext) is None,
{
    lemma_last_index(name, c, ext);
    assert((name.push(c) + ext).skip(name.len() as int + 1) =~= ext);
}

/// The file that a path leads to is its last part.
pub proof fn law_file_name(path: PathView)
    requires
        path.parts.len() > 0,
        plain_parts(path.parts),
        path.parts.last() != ".."@,
    ensures
        file_name(path_text(path)) == Some(path.parts.last()),
{
    law_path_reads_back(path);
}

/// A relative path that a tool is given lies in the workspace, one that starts with a tilde in the
/// home directory; an absolute path stays.
pub proof fn law_where_a_tool_works(
    path: Seq<char>,
    home: Seq<char>,
    workspace: Seq<char>,
)
    requires
        workspace.len() > 0,
        workspace.last() != '/',
        home.len() > 0,
        home.last() != '/',
        path.len() > 0,
    ensures
        path[0] == '/' ==> tool_path(path, Some(home), workspace) == path,
        path[0] != '/' && path[0] != '~' ==> tool_path(path, Some(home), workspace) == workspace
            + "/"@ + path,
        path[0] != '/' ==> tool_path("~/"@ + path, Some(home), workspace) == home + "/"@ + path,
{
    reveal_strlit("~/");
    assert("~/"@[0] == '~');
    law_prefix_is_stripped("~/"@ + path, "~/"@, path);
    if path[0] != '~' {
        if crate::text::strip_prefix(path, "~/"@) is Some {
            let r = crate::text::strip_prefix(path, "~/"@)->0;
            law_prefix_is_stripped(path, "~/"@, r);
            assert(path[0] == "~/"@[0]);
        }
    }
}

// ---------------------------------------------------------------------------
// Lines and files
// ---------------------------------------------------------------------------

/// Each line that has come to its end is given out, trimmed, in order; what has not stays for
/// later.
pub proof fn law_complete_lines(line: Seq<char>, rest: Seq<char>)
    requires
        lacks(line, '\n'),
    ensures
        complete_lines(line + seq!['\n'] + rest).0 == seq![trim(line)] + complete_lines(rest).0,
        complete_lines(line + seq!['\n'] + rest).1 == complete_lines(rest).1,
        complete_lines(line) == (Seq::<Seq<char>>::empty(), line),
{
    let s = line + seq!['\n'] + rest;
    lemma_lacks_leads(line, seq!['\n']);
    law_split_at_the_first(line, seq!['\n'], rest);
    law_no_split_without_pattern(line, seq!['\n']);
    assert(s.take(line.len() as int) =~= line);
    assert(s.skip(line.len() as int + 1) =~= rest);
}

/// The media that a result names are found, in every member that can name them, in order.
pub proof fn law_media_is_found(result: JsonView, path: Seq<char>, items: Seq<JsonView>, item: JsonView)
    requires
        media_path(path),
    ensures
        result.str_at("output_path"@) == Some(path) ==> media_in(result).contains(path),
        result.str_at("path"@) == Some(path) ==> media_in(result).contains(path),
        result.str_at("file_path"@) == Some(path) ==> media_in(result).contains(path),
        item == JsonView::Str(path) ==> media_among(items.push(item)) == media_among(items).push(
            path,
        ),
        result.get("media"@) == Some(JsonView::Array(items)) ==> forall|p: Seq<char>|
            media_among(items).contains(p) ==> #[trigger] media_in(result).contains(p),
{
    assert(items.push(item).drop_last() =~= items);
    let a = media_at(result, "output_path"@);
    let b = media_at(result, "path"@);
    let c = media_at(result, "file_path"@);
    let d = media_at(result, "screenshot_path"@);
    let e = media_at(result, "image_path"@);
    let all = media_in(result);
    if result.str_at("output_path"@) == Some(path) {
        assert(all[0] == path);
    }
    if result.str_at("path"@) == Some(path) {
        assert(all[a.len() as int] == path);
    }
    if result.str_at("file_path"@) == Some(path) {
        assert(all[(a.len() + b.len()) as int] == path);
    }
    if result.get("media"@) == Some(JsonView::Array(items)) {
        let n = (a + b + c + d + e).len() as int;
        assert forall|p: Seq<char>| media_among(items).contains(p) implies #[trigger] all.contains(
            p,
        ) by {
            let k = choose|k: int| 0 <= k < media_among(items).len() && media_among(items)[k] == p;
            assert(all[n + k] == p);
        }
    }
}

/// Of the files that an answer mentions, the first that may be sent is sent.
pub proof fn law_first_file_is_sent(
    files: Seq<MentionedFile>,
    media_dir: Option<Seq<char>>,
    k: int,
)
    requires
        0 <= k < files.len(),
        sendable(files[k], media_dir),
        forall|i: int| 0 <= i < k ==> !sendable(#[trigger] files[i], media_dir),
    ensures
        first_sendable(files, media_dir) == Some(files[k].path@),
    decreases k,
{
    if k > 0 {
        assert(!sendable(files[0], media_dir));
        let rest = files.skip(1);
        assert forall|i: int| 0 <= i < k - 1 implies !sendable(#[trigger] rest[i], media_dir) by {
            assert(rest[i] == files[i + 1]);
        }
        law_first_file_is_sent(rest, media_dir, k - 1);
    }
}

// ---------------------------------------------------------------------------
// Sending
// ---------------------------------------------------------------------------

/// A message is sent by the account that it asks for; where it asks for one that is not there, it
/// is not sent.
pub proof fn law_asked_account_is_picked<T>(
    channel: Seq<char>,
    accounts: Seq<(String, T)>,
    id: Seq<char>,
    default: Option<Seq<char>>,
    k: int,
)
    requires
        accounts.len() > 0,
        -1 <= k < accounts.len(),
        k >= 0 ==> accounts[k].0@ == id,
        forall|i: int| 0 <= i < accounts.len() && (i < k || k < 0) ==> (#[trigger] accounts[i]).0@
            != id,
    ensures
        k >= 0 ==> picked(channel, accounts, Some(id), default) == Ok::<Option<T>, Seq<char>>(
            Some(accounts[k].1),
        ),
        k < 0 ==> picked(channel, accounts, Some(id), default) is Err,
{
    lemma_account_with(accounts, id, k);
}

proof fn lemma_account_with<T>(accounts: Seq<(String, T)>, id: Seq<char>, k: int)
    requires
        -1 <= k < accounts.len(),
        k >= 0 ==> accounts[k].0@ == id,
        forall|i: int| 0 <= i < accounts.len() && (i < k || k < 0) ==> (#[trigger] accounts[i]).0@
            != id,
    ensures
        k >= 0 ==> account_with(accounts, id) == Some(accounts[k].1),
        k < 0 ==> account_with(accounts, id) is None,
    decreases accounts.len(),
{
    if accounts.len() > 0 && k != 0 {
        assert(accounts[0].0@ != id);
        let rest = accounts.skip(1);
        let j = if k > 0 {
            k - 1
        } else {
            -1
        };
        assert forall|i: int| 0 <= i < rest.len() && (i < j || j < 0) implies (
        #[trigger] rest[i]).0@ != id by {
            assert(rest[i] == accounts[i + 1]);
        }
        lemma_account_with(rest, id, j);
    }
}

// ---------------------------------------------------------------------------
// Summaries
// ---------------------------------------------------------------------------

/// A text that is cut keeps its start and says so.
pub proof fn law_cut_text(s: Seq<char>, max: nat)
    ensures
        s.len() <= max ==> with_dots(s, max) == s,
        s.len() > max ==> with_dots(s, max) == s.take(max as int) + "..."@,
        with_dots(s, max).len() <= max + 3,
{
    reveal_strlit("...");
}

/// Of the lines of a summary, the last are kept: as many as fit, and at least one.
pub proof fn law_last_lines_are_kept(lines: Seq<Seq<char>>, k: int)
    requires
        0 <= k < lines.len(),
        join(lines.skip(k), "\n"@).len() <= 800 || k == lines.len() - 1,
        forall|j: int| 0 <= j < k ==> join(#[trigger] lines.skip(j), "\n"@).len() > 800,
    ensures
        last_lines(lines) == join(lines.skip(k), "\n"@),
    decreases k,
{
    assert(lines.skip(0) =~= lines);
    if k > 0 {
        assert(join(lines.skip(0), "\n"@).len() > 800);
        let rest = lines.skip(1);
        assert(rest.skip(k - 1) =~= lines.skip(k));
        assert forall|j: int| 0 <= j < k - 1 implies join(#[trigger] rest.skip(j), "\n"@).len()
            > 800 by {
            assert(rest.skip(j) =~= lines.skip(j + 1));
        }
        law_last_lines_are_kept(rest, k - 1);
    }
}

/// The answer to a question is the last that calls no tool.
pub proof fn law_last_reply(history: Seq<MessageView>, from: int, to: int, k: int)
    requires
        0 <= from <= k < to <= history.len(),
        history[k].role == "assistant"@,
        history[k].tool_calls is None,
        forall|j: int|
            k < j < to ==> !((#[trigger] history[j]).role == "assistant"@ && history[j].tool_calls
                is None),
    ensures
        last_reply(history, from, to) == short_content(history[k].content, 150, Seq::empty()),
    decreases to,
{
    if k < to - 1 {
        assert(!(history[to - 1].role == "assistant"@ && history[to - 1].tool_calls is None));
        law_last_reply(history, from, to - 1, k);
    }
}

/// Each question has a line, in order, with its answer: the lines of a session are the line of its
/// first question and those from the next question on.
pub proof fn law_one_line_per_question(history: Seq<MessageView>, i: int, n: int)
    requires
        0 <= i < n <= history.len(),
        history[i].role == "user"@,
        n < history.len() ==> history[n].role == "user"@,
        forall|j: int| i < j < n ==> (#[trigger] history[j]).role != "user"@,
    ensures
        summary_lines(history, i) == seq![
            summary_line(
                short_content(history[i].content, 100, "(media)"@),
                last_reply(history, i + 1, n),
            ),
        ] + summary_lines(history, n),
{
    lemma_next(history, i + 1, n);
}

proof fn lemma_next(history: Seq<MessageView>, j: int, n: int)
    requires
        0 <= j <= n <= history.len(),
        n < history.len() ==> history[n].role == "user"@,
        forall|k: int| j <= k < n ==> (#[trigger] history[k]).role != "user"@,
    ensures
        next_question(history, j) == n,
    decreases n - j,
{
    if j < n {
        assert(history[j].role != "user"@);
        lemma_next(history, j + 1, n);
    }
}

/// A notice says its title and its text.
pub proof fn law_notice_says_all(request: NotificationRequest)
    ensures
        holds(notification_text(request), request.title@),
        holds(notification_text(request), request.body@),
{
    let mark = crate::events::priority_mark(request.priority);
    lemma_holds(mark, request.title@, "\n"@ + request.body@);
    assert(notification_text(request) =~= mark + request.title@ + ("\n"@ + request.body@));
    lemma_holds(mark + request.title@ + "\n"@, request.body@, Seq::empty());
    assert(notification_text(request) =~= mark + request.title@ + "\n"@ + request.body@
        + Seq::empty());
}

} // verus!
