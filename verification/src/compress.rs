//! Compression of a conversation by whole rounds.

use crate::history::{
    capped, content_text, content_text_of, estimate_history_tokens, head_tail, history_tokens,
    lemma_history_tokens_concat, trim_chat_message, trim_text_head_tail, trimmed_message,
    trimmed_messages,
};
use crate::text::same_text;
use crate::types::{calls_view, messages_view, text_message, ChatMessage, MessageView};
use crate::value::group_json_view;
use vstd::prelude::*;

verus! {

broadcast use group_json_view;

// ---------------------------------------------------------------------------
// Rounds
// ---------------------------------------------------------------------------

/// The rounds of a conversation: each message of the user opens one.
pub open spec fn rounds(history: Seq<MessageView>) -> Seq<Seq<MessageView>>
    decreases history.len(),
{
    if history.len() == 0 {
        Seq::empty()
    } else {
        let before = rounds(history.drop_last());
        let message = history.last();
        if before.len() == 0 || message.role == "user"@ {
            before.push(seq![message])
        } else {
            before.update(before.len() - 1, before.last().push(message))
        }
    }
}

pub open spec fn flat(list: Seq<Seq<MessageView>>) -> Seq<MessageView>
    decreases list.len(),
{
    if list.len() == 0 {
        Seq::empty()
    } else {
        flat(list.drop_last()) + list.last()
    }
}

/// The rounds, one after the other, are the conversation; none is empty; every round but the
/// first starts with a message of the user, and no round has a second one.
pub proof fn law_rounds_partition(history: Seq<MessageView>)
    ensures
        flat(rounds(history)) == history,
        forall|i: int| 0 <= i < rounds(history).len() ==> (#[trigger] rounds(history)[i]).len() > 0,
        forall|i: int|
            0 < i < rounds(history).len() ==> (#[trigger] rounds(history)[i])[0].role == "user"@,
        forall|i: int, j: int|
            0 <= i < rounds(history).len() && 0 < j < rounds(history)[i].len() ==> (
            #[trigger] rounds(history)[i][j]).role != "user"@,
        history.len() > 0 ==> rounds(history).len() > 0 && rounds(history)[0][0] == history[0],
    decreases history.len(),
{
    if history.len() > 0 {
        let prior = history.drop_last();
        law_rounds_partition(prior);
        let before = rounds(prior);
        let now = rounds(history);
        let message = history.last();
        if before.len() == 0 || message.role == "user"@ {
            assert(now.drop_last() =~= before);
            assert(flat(now) =~= prior + seq![message]);
            assert(now.len() > 1 ==> now[0] == before[0]);
        } else {
            let last = before.last();
            assert(now.drop_last() =~= before.drop_last());
            assert(flat(before) == flat(before.drop_last()) + last);
            assert(flat(now) =~= flat(before.drop_last()) + last.push(message));
            assert(flat(now) =~= flat(before).push(message));
            assert forall|i: int| 0 < i < now.len() implies (#[trigger] now[i])[0].role
                == "user"@ by {
                assert(before[i][0].role == "user"@);
                assert(now[i][0] == before[i][0]);
            }
            assert forall|i: int, j: int|
                0 <= i < now.len() && 0 < j < now[i].len() implies (#[trigger] now[i][j]).role
                != "user"@ by {
                if i < now.len() - 1 || j < last.len() {
                    assert(now[i][j] == before[i][j]);
                }
            }
            assert(now[0][0] == before[0][0]);
        }
        assert(prior.push(message) =~= history);
        assert(prior.len() > 0 ==> prior[0] == history[0]);
    }
}

pub open spec fn refs_view(messages: Seq<&ChatMessage>) -> Seq<MessageView> {
    messages.map_values(|m: &ChatMessage| m@)
}

pub open spec fn rounds_view(list: Seq<Vec<&ChatMessage>>) -> Seq<Seq<MessageView>> {
    list.map_values(|r: Vec<&ChatMessage>| refs_view(r@))
}

/// The rounds of a conversation.
pub fn split_history_into_rounds<'a>(history: &'a [ChatMessage]) -> (r: Vec<Vec<&'a ChatMessage>>)
    ensures
        rounds_view(r@) == rounds(messages_view(history@)),
{
    let ghost views = messages_view(history@);
    let mut r: Vec<Vec<&ChatMessage>> = Vec::new();
    let mut i: usize = 0;
    assert(rounds_view(r@) =~= Seq::empty());
    while i < history.len()
        invariant
            i <= history.len(),
            views == messages_view(history@),
            rounds_view(r@) == rounds(views.take(i as int)),
        decreases history.len() - i,
    {
        assert(views.take(i + 1).drop_last() =~= views.take(i as int));
        assert(views[i as int] == history@[i as int]@);
        let ghost before = rounds_view(r@);
        let message = &history[i];
        if r.len() == 0 || same_text(message.role.as_str(), "user") {
            let mut round: Vec<&ChatMessage> = Vec::new();
            round.push(message);
            assert(refs_view(round@) =~= seq![message@]);
            r.push(round);
            assert(rounds_view(r@) =~= before.push(seq![message@]));
        } else if let Some(mut round) = r.pop() {
            let ghost last = refs_view(round@);
            assert(before.last() == last);
            round.push(message);
            assert(refs_view(round@) =~= last.push(message@));
            r.push(round);
            assert(rounds_view(r@) =~= before.update(before.len() - 1, last.push(message@)));
        }
        i += 1;
    }
    assert(views.take(views.len() as int) =~= views);
    r
}

// ---------------------------------------------------------------------------
// Rounds in short
// ---------------------------------------------------------------------------

/// The first message of this role.
pub open spec fn first_of_role(round: Seq<MessageView>, role: Seq<char>) -> Option<MessageView>
    decreases round.len(),
{
    if round.len() == 0 {
        None
    } else if round[0].role == role {
        Some(round[0])
    } else {
        first_of_role(round.skip(1), role)
    }
}

/// The last message of the assistant; with `plain`, the last that asks for no tools.
pub open spec fn last_answer(round: Seq<MessageView>, plain: bool) -> Option<MessageView>
    decreases round.len(),
{
    if round.len() == 0 {
        None
    } else if round.last().role == "assistant"@ && (!plain || round.last().tool_calls is None) {
        Some(round.last())
    } else {
        last_answer(round.drop_last(), plain)
    }
}

/// The answer that stands for a round.
pub open spec fn final_answer(round: Seq<MessageView>) -> Option<MessageView> {
    match last_answer(round, true) {
        Some(m) => Some(m),
        None => last_answer(round, false),
    }
}

/// A round in two messages: what was asked, and the final answer. A round in which nothing was
/// asked has no short form.
pub open spec fn short_round(round: Seq<MessageView>) -> Option<Seq<MessageView>> {
    match first_of_role(round, "user"@) {
        None => None,
        Some(asked) => {
            let answer = match final_answer(round) {
                Some(m) => content_text(m.content, " "@),
                None => "(completed with tool calls)"@,
            };
            Some(
                seq![
                    text_message("user"@, head_tail(content_text(asked.content, " "@), 200)),
                    text_message("assistant"@, head_tail(answer, 400)),
                ],
            )
        },
    }
}

fn first_user<'a>(round: &Vec<&'a ChatMessage>) -> (r: Option<&'a ChatMessage>)
    ensures
        match r {
            Some(m) => first_of_role(refs_view(round@), "user"@) == Some(m@),
            None => first_of_role(refs_view(round@), "user"@) is None,
        },
{
    let ghost views = refs_view(round@);
    let mut i: usize = 0;
    assert(views.skip(0) =~= views);
    while i < round.len()
        invariant
            i <= round.len(),
            views == refs_view(round@),
            first_of_role(views, "user"@) == first_of_role(views.skip(i as int), "user"@),
        decreases round.len() - i,
    {
        if same_text(round[i].role.as_str(), "user") {
            return Some(round[i]);
        }
        assert(views.skip(i as int).skip(1) =~= views.skip(i + 1));
        i += 1;
    }
    None
}

fn last_answer_of<'a>(round: &Vec<&'a ChatMessage>, plain: bool) -> (r: Option<&'a ChatMessage>)
    ensures
        match r {
            Some(m) => last_answer(refs_view(round@), plain) == Some(m@),
            None => last_answer(refs_view(round@), plain) is None,
        },
{
    let ghost views = refs_view(round@);
    let mut n: usize = round.len();
    assert(views.take(views.len() as int) =~= views);
    while n > 0
        invariant
            n <= round.len(),
            views == refs_view(round@),
            last_answer(views, plain) == last_answer(views.take(n as int), plain),
        decreases n,
    {
        let message = round[n - 1];
        assert(views.take(n as int).last() == message@);
        if same_text(message.role.as_str(), "assistant") && (!plain
            || message.tool_calls.is_none()) {
            return Some(message);
        }
        assert(views.take(n as int).drop_last() =~= views.take(n - 1));
        n -= 1;
    }
    None
}

/// A round in two messages.
pub fn build_compressed_round(round: &Vec<&ChatMessage>) -> (r: Option<Vec<ChatMessage>>)
    ensures
        match r {
            Some(pair) => short_round(refs_view(round@)) == Some(messages_view(pair@)),
            None => short_round(refs_view(round@)) is None,
        },
{
    let asked = match first_user(round) {
        Some(m) => m,
        None => {
            return None;
        },
    };
    let answer = match last_answer_of(round, true) {
        Some(m) => content_text_of(&m.content, " "),
        None => match last_answer_of(round, false) {
            Some(m) => content_text_of(&m.content, " "),
            None => "(completed with tool calls)".to_owned(),
        },
    };
    let question = content_text_of(&asked.content, " ");
    let first = ChatMessage::user(trim_text_head_tail(question.as_str(), 200).as_str());
    let second = ChatMessage::assistant(trim_text_head_tail(answer.as_str(), 400).as_str());
    let mut pair: Vec<ChatMessage> = Vec::new();
    pair.push(first);
    pair.push(second);
    assert(messages_view(pair@) =~= seq![first@, second@]);
    Some(pair)
}

/// A round whose messages are cut to the limits of their roles.
pub fn build_intact_round(round: &Vec<&ChatMessage>) -> (r: Vec<ChatMessage>)
    ensures
        messages_view(r@) == trimmed_messages(refs_view(round@)),
{
    let ghost all = trimmed_messages(refs_view(round@));
    let mut r: Vec<ChatMessage> = Vec::new();
    let mut i: usize = 0;
    while i < round.len()
        invariant
            i <= round.len(),
            all == trimmed_messages(refs_view(round@)),
            messages_view(r@) == all.take(i as int),
        decreases round.len() - i,
    {
        let ghost so_far = messages_view(r@);
        let message = trim_chat_message(round[i]);
        assert(message@ == all[i as int]);
        r.push(message);
        assert(messages_view(r@) =~= so_far.push(message@));
        assert(messages_view(r@) =~= all.take(i + 1));
        i += 1;
    }
    assert(messages_view(r@) =~= all);
    r
}

// ---------------------------------------------------------------------------
// Fitting a budget
// ---------------------------------------------------------------------------

/// The newest rounds in short that fit into `limit` on top of `spent`, oldest first. Rounds
/// without a short form are passed over; the first that does not fit ends the list.
pub open spec fn older_rounds(list: Seq<Seq<MessageView>>, spent: nat, limit: nat) -> Seq<
    MessageView,
>
    decreases list.len(),
{
    if list.len() == 0 {
        Seq::empty()
    } else {
        match short_round(list.last()) {
            None => older_rounds(list.drop_last(), spent, limit),
            Some(pair) => if capped(spent + history_tokens(pair)) > limit {
                Seq::empty()
            } else {
                older_rounds(list.drop_last(), spent + history_tokens(pair), limit) + pair
            },
        }
    }
}

/// The rounds from `start` on, trimmed.
pub open spec fn kept_rounds(list: Seq<Seq<MessageView>>, start: int) -> Seq<MessageView> {
    flat(list.skip(start).map_values(|r: Seq<MessageView>| trimmed_messages(r)))
}

pub open spec fn kept_start(list: Seq<Seq<MessageView>>, count: nat) -> int {
    if list.len() <= count {
        0
    } else {
        list.len() - count
    }
}

/// A conversation with its last `count` rounds intact and the older ones in short; nothing where
/// the intact rounds alone exceed the budget, or nothing is left.
pub open spec fn with_kept_rounds(
    list: Seq<Seq<MessageView>>,
    count: nat,
    budget: nat,
) -> Option<Seq<MessageView>> {
    let start = kept_start(list, count);
    let kept = kept_rounds(list, start);
    let tokens = capped(history_tokens(kept));
    if tokens > budget {
        None
    } else {
        let all = older_rounds(list.take(start), 0, (budget - tokens) as nat) + kept;
        if all.len() == 0 {
            None
        } else {
            Some(all)
        }
    }
}

/// The last round, in short where it has a short form.
pub open spec fn latest_round(list: Seq<Seq<MessageView>>) -> Seq<MessageView> {
    if list.len() == 0 {
        Seq::empty()
    } else {
        match short_round(list.last()) {
            Some(pair) => pair,
            None => trimmed_messages(list.last()),
        }
    }
}

/// A conversation within a budget: with the last six rounds intact, or else four, or two, or
/// none; where even that does not fit, the last round alone.
pub open spec fn compressed(history: Seq<MessageView>, budget: nat) -> Seq<MessageView> {
    let list = rounds(history);
    if history.len() == 0 || budget == 0 {
        Seq::empty()
    } else {
        match with_kept_rounds(list, 6, budget) {
            Some(all) => all,
            None => match with_kept_rounds(list, 4, budget) {
                Some(all) => all,
                None => match with_kept_rounds(list, 2, budget) {
                    Some(all) => all,
                    None => match with_kept_rounds(list, 0, budget) {
                        Some(all) => all,
                        None => latest_round(list),
                    },
                },
            },
        }
    }
}

/// The older rounds fit into what they may spend.
proof fn lemma_older_rounds_fit(list: Seq<Seq<MessageView>>, spent: nat, limit: nat)
    requires
        capped(spent) <= limit,
    ensures
        capped(spent + history_tokens(older_rounds(list, spent, limit))) <= limit,
    decreases list.len(),
{
    if list.len() > 0 {
        match short_round(list.last()) {
            None => lemma_older_rounds_fit(list.drop_last(), spent, limit),
            Some(pair) => if capped(spent + history_tokens(pair)) <= limit {
                let now = spent + history_tokens(pair);
                lemma_older_rounds_fit(list.drop_last(), now, limit);
                lemma_history_tokens_concat(older_rounds(list.drop_last(), now, limit), pair);
            },
        }
    }
}

/// A conversation with kept rounds stays within the budget and ends with the kept rounds.
pub proof fn law_kept_rounds_fit(list: Seq<Seq<MessageView>>, count: nat, budget: nat)
    requires
        with_kept_rounds(list, count, budget) is Some,
        budget < usize::MAX,
    ensures
        history_tokens(with_kept_rounds(list, count, budget)->0) <= budget,
        ({
            let all = with_kept_rounds(list, count, budget)->0;
            let kept = kept_rounds(list, kept_start(list, count));
            kept.len() <= all.len() && all.skip(all.len() - kept.len()) == kept
        }),
{
    let start = kept_start(list, count);
    let kept = kept_rounds(list, start);
    let limit = (budget - capped(history_tokens(kept))) as nat;
    let older = older_rounds(list.take(start), 0, limit);
    lemma_older_rounds_fit(list.take(start), 0, limit);
    lemma_history_tokens_concat(older, kept);
    assert((older + kept).skip((older + kept).len() - kept.len()) =~= kept);
}

/// Every run of short rounds starts with a question.
proof fn lemma_older_rounds_start(list: Seq<Seq<MessageView>>, spent: nat, limit: nat)
    ensures
        ({
            let r = older_rounds(list, spent, limit);
            r.len() > 0 ==> r[0].role == "user"@
        }),
    decreases list.len(),
{
    if list.len() > 0 {
        match short_round(list.last()) {
            None => lemma_older_rounds_start(list.drop_last(), spent, limit),
            Some(pair) => {
                lemma_older_rounds_start(list.drop_last(), spent + history_tokens(pair), limit);
            },
        }
    }
}

proof fn lemma_flat_first(list: Seq<Seq<MessageView>>)
    requires
        list.len() > 0,
        forall|i: int| 0 <= i < list.len() ==> (#[trigger] list[i]).len() > 0,
    ensures
        flat(list).len() > 0,
        flat(list)[0] == list[0][0],
    decreases list.len(),
{
    if list.len() > 1 {
        assert(list.drop_last()[0] == list[0]);
        lemma_flat_first(list.drop_last());
    } else {
        assert(list.drop_last() =~= Seq::empty());
        assert(flat(list.drop_last()) =~= Seq::empty());
        assert(flat(list) =~= list[0]);
    }
}

/// Kept and short rounds start with a question where every round does.
proof fn lemma_kept_rounds_start(list: Seq<Seq<MessageView>>, count: nat, budget: nat)
    requires
        with_kept_rounds(list, count, budget) is Some,
        forall|i: int| 0 <= i < list.len() ==> (#[trigger] list[i]).len() > 0,
        forall|i: int| 0 <= i < list.len() ==> (#[trigger] list[i])[0].role == "user"@,
    ensures
        with_kept_rounds(list, count, budget)->0.len() > 0,
        with_kept_rounds(list, count, budget)->0[0].role == "user"@,
{
    let start = kept_start(list, count);
    let kept = kept_rounds(list, start);
    let limit = (budget - capped(history_tokens(kept))) as nat;
    let older = older_rounds(list.take(start), 0, limit);
    lemma_older_rounds_start(list.take(start), 0, limit);
    let trimmed = list.skip(start).map_values(|r: Seq<MessageView>| trimmed_messages(r));
    if older.len() == 0 {
        if trimmed.len() > 0 {
            assert forall|i: int| 0 <= i < trimmed.len() implies (#[trigger] trimmed[i]).len()
                > 0 by {
                assert(trimmed[i].len() == list[start + i].len());
            }
            lemma_flat_first(trimmed);
            assert(list[start].len() > 0);
            assert(trimmed[0][0] == trimmed_message(list[start][0]));
            assert((older + kept)[0] == kept[0]);
        } else {
            assert(flat(trimmed) =~= Seq::empty());
        }
    } else {
        assert((older + kept)[0] == older[0]);
    }
}

/// A compressed conversation never starts in the middle of a round: where the conversation
/// starts with a message of the user, so does what is left of it.
pub proof fn law_compressed_starts_with_question(history: Seq<MessageView>, budget: nat)
    requires
        history.len() > 0,
        history[0].role == "user"@,
        budget > 0,
    ensures
        compressed(history, budget).len() > 0,
        compressed(history, budget)[0].role == "user"@,
{
    let list = rounds(history);
    law_rounds_partition(history);
    assert forall|i: int| 0 <= i < list.len() implies (#[trigger] list[i])[0].role
        == "user"@ by {}
    if with_kept_rounds(list, 6, budget) is Some {
        lemma_kept_rounds_start(list, 6, budget);
    } else if with_kept_rounds(list, 4, budget) is Some {
        lemma_kept_rounds_start(list, 4, budget);
    } else if with_kept_rounds(list, 2, budget) is Some {
        lemma_kept_rounds_start(list, 2, budget);
    } else if with_kept_rounds(list, 0, budget) is Some {
        lemma_kept_rounds_start(list, 0, budget);
    } else {
        let last = list.last();
        assert(last.len() > 0 && last[0].role == "user"@);
        assert(first_of_role(last, "user"@) == Some(last[0]));
    }
}

proof fn lemma_flat_push(list: Seq<Seq<MessageView>>, round: Seq<MessageView>)
    ensures
        flat(list.push(round)) == flat(list) + round,
{
    assert(list.push(round).drop_last() =~= list);
}

/// A conversation with its last rounds intact and the older ones in short.
pub fn compress_history_with_preserved_rounds(
    list: &Vec<Vec<&ChatMessage>>,
    preserved_count: usize,
    token_budget: usize,
) -> (r: Option<Vec<ChatMessage>>)
    ensures
        match r {
            Some(all) => with_kept_rounds(
                rounds_view(list@),
                preserved_count as nat,
                token_budget as nat,
            ) == Some(messages_view(all@)),
            None => with_kept_rounds(
                rounds_view(list@),
                preserved_count as nat,
                token_budget as nat,
            ) is None,
        },
{
    let ghost views = rounds_view(list@);
    let start: usize = if list.len() <= preserved_count {
        0
    } else {
        list.len() - preserved_count
    };
    let ghost trimmed = views.skip(start as int).map_values(
        |r: Seq<MessageView>| trimmed_messages(r),
    );
    let mut kept: Vec<ChatMessage> = Vec::new();
    let mut i: usize = start;
    assert(messages_view(kept@) =~= flat(trimmed.take(0)));
    while i < list.len()
        invariant
            start <= i <= list.len(),
            views == rounds_view(list@),
            trimmed == views.skip(start as int).map_values(
                |r: Seq<MessageView>| trimmed_messages(r),
            ),
            messages_view(kept@) == flat(trimmed.take(i - start)),
        decreases list.len() - i,
    {
        let mut round = build_intact_round(&list[i]);
        let ghost so_far = messages_view(kept@);
        let ghost added = messages_view(round@);
        assert(views[i as int] == refs_view(list@[i as int]@));
        assert(added == trimmed[i - start]);
        kept.append(&mut round);
        assert(messages_view(kept@) =~= so_far + added);
        proof {
            lemma_flat_push(trimmed.take(i - start), added);
            assert(trimmed.take(i + 1 - start) =~= trimmed.take(i - start).push(added));
        }
        i += 1;
    }
    assert(trimmed.take(list@.len() - start) =~= trimmed);
    let tokens = estimate_history_tokens(&kept);
    if tokens > token_budget {
        return None;
    }
    let limit: usize = token_budget - tokens;
    let ghost older_list = views.take(start as int);
    let mut older: Vec<ChatMessage> = Vec::new();
    let mut n: usize = start;
    let mut spent: usize = 0;
    let ghost mut spent_exact: nat = 0;
    assert(older_list.take(start as int) =~= older_list);
    assert(older_rounds(older_list, 0, limit as nat) + messages_view(older@) =~= older_rounds(
        older_list,
        0,
        limit as nat,
    ));
    while n > 0
        invariant_except_break
            n <= start <= list@.len(),
            views == rounds_view(list@),
            older_list == views.take(start as int),
            spent == capped(spent_exact),
            older_rounds(older_list, 0, limit as nat) == older_rounds(
                older_list.take(n as int),
                spent_exact,
                limit as nat,
            ) + messages_view(older@),
        ensures
            older_rounds(older_list, 0, limit as nat) == messages_view(older@),
        decreases n,
    {
        let ghost here = older_list.take(n as int);
        assert(here.last() == refs_view(list@[n - 1]@));
        assert(here.drop_last() =~= older_list.take(n - 1));
        let ghost so_far = messages_view(older@);
        if let Some(mut pair) = build_compressed_round(&list[n - 1]) {
            let ghost added = messages_view(pair@);
            let more = estimate_history_tokens(&pair);
            let total = spent.saturating_add(more);
            assert(total == capped(spent_exact + history_tokens(added)));
            if total > limit {
                assert(Seq::<MessageView>::empty() + so_far =~= so_far);
                break ;
            }
            spent = total;
            proof {
                spent_exact = spent_exact + history_tokens(added);
                let rest = older_rounds(older_list.take(n - 1), spent_exact, limit as nat);
                assert((rest + added) + so_far =~= rest + (added + so_far));
            }
            pair.append(&mut older);
            assert(messages_view(pair@) =~= added + so_far);
            older = pair;
        }
        n -= 1;
        if n == 0 {
            assert(Seq::<MessageView>::empty() + messages_view(older@) =~= messages_view(older@));
        }
    }
    proof {
        if start == 0 {
            assert(messages_view(older@) =~= older_rounds(older_list, 0, limit as nat));
        }
    }
    let ghost first = messages_view(older@);
    let ghost second = messages_view(kept@);
    older.append(&mut kept);
    assert(messages_view(older@) =~= first + second);
    if older.len() == 0 {
        None
    } else {
        Some(older)
    }
}

/// The last round, in short where it has a short form.
pub fn fallback_latest_round(list: &Vec<Vec<&ChatMessage>>) -> (r: Vec<ChatMessage>)
    ensures
        messages_view(r@) == latest_round(rounds_view(list@)),
{
    if list.len() == 0 {
        let none: Vec<ChatMessage> = Vec::new();
        assert(messages_view(none@) =~= Seq::empty());
        return none;
    }
    let last = &list[list.len() - 1];
    assert(rounds_view(list@).last() == refs_view(last@));
    match build_compressed_round(last) {
        Some(pair) => pair,
        None => build_intact_round(last),
    }
}

/// A conversation within a budget of tokens, shortened by whole rounds.
pub fn compress_history(history: &[ChatMessage], token_budget: usize) -> (r: Vec<ChatMessage>)
    ensures
        messages_view(r@) == compressed(messages_view(history@), token_budget as nat),
{
    if history.len() == 0 || token_budget == 0 {
        let none: Vec<ChatMessage> = Vec::new();
        assert(messages_view(none@) =~= Seq::empty());
        return none;
    }
    let list = split_history_into_rounds(history);
    if let Some(all) = compress_history_with_preserved_rounds(&list, 6, token_budget) {
        return all;
    }
    if let Some(all) = compress_history_with_preserved_rounds(&list, 4, token_budget) {
        return all;
    }
    if let Some(all) = compress_history_with_preserved_rounds(&list, 2, token_budget) {
        return all;
    }
    if let Some(all) = compress_history_with_preserved_rounds(&list, 0, token_budget) {
        return all;
    }
    fallback_latest_round(&list)
}

// ---------------------------------------------------------------------------
// A safe start
// ---------------------------------------------------------------------------

/// The first position at or after `i` that holds no result of a tool.
pub open spec fn past_results(history: Seq<MessageView>, i: int) -> int
    decreases history.len() - i,
{
    if 0 <= i < history.len() && history[i].role == "tool"@ {
        past_results(history, i + 1)
    } else {
        i
    }
}

/// One of the results that directly follow position `i` answers the call `id`.
pub open spec fn answered(history: Seq<MessageView>, i: int, id: Seq<char>) -> bool {
    exists|j: int|
        i < j < past_results(history, i + 1) && (#[trigger] history[j]).tool_call_id == Some(id)
}

/// The message at `i` asks for tools, and not all of its calls are answered.
pub open spec fn lacks_results(history: Seq<MessageView>, i: int) -> bool {
    &&& history[i].role == "assistant"@
    &&& history[i].tool_calls is Some
    &&& exists|k: int|
        0 <= k < history[i].tool_calls->0.len() && !answered(
            history,
            i,
            (#[trigger] history[i].tool_calls->0[k]).id,
        )
}

pub proof fn lemma_past_results(history: Seq<MessageView>, i: int)
    requires
        0 <= i <= history.len(),
    ensures
        i <= past_results(history, i) <= history.len(),
        forall|j: int|
            i <= j < past_results(history, i) ==> (#[trigger] history[j]).role == "tool"@,
        past_results(history, i) < history.len() ==> history[past_results(history, i)].role
            != "tool"@,
    decreases history.len() - i,
{
    if i < history.len() && history[i].role == "tool"@ {
        lemma_past_results(history, i + 1);
    }
}

/// The first safe start at or after `i`: messages whose calls are not all answered are passed
/// over together with the results that follow them.
pub open spec fn safe_from(history: Seq<MessageView>, i: int) -> int
    decreases history.len() - i,
{
    if 0 <= i < history.len() && lacks_results(history, i) {
        proof {
            lemma_past_results(history, i + 1);
        }
        safe_from(history, past_results(history, i + 1))
    } else {
        i
    }
}

pub open spec fn safe_start(history: Seq<MessageView>) -> int {
    safe_from(history, past_results(history, 0))
}

/// A conversation can start at `i`: not with the result of a tool, nor with a message whose calls
/// lack a result.
pub open spec fn clean_start(history: Seq<MessageView>, i: int) -> bool {
    history[i].role != "tool"@ && !lacks_results(history, i)
}

proof fn lemma_safe_from(history: Seq<MessageView>, i: int)
    requires
        0 <= i <= history.len(),
        i < history.len() ==> history[i].role != "tool"@,
    ensures
        i <= safe_from(history, i) <= history.len(),
        safe_from(history, i) < history.len() ==> clean_start(history, safe_from(history, i)),
        forall|j: int| i <= j < safe_from(history, i) ==> !#[trigger] clean_start(history, j),
    decreases history.len() - i,
{
    if i < history.len() {
        lemma_past_results(history, i + 1);
        if lacks_results(history, i) {
            lemma_safe_from(history, past_results(history, i + 1));
        }
    }
}

/// A safe start is no result of a tool, and no message whose calls lack a result. It is the first
/// such position; where there is none, nothing of the history is left.
pub proof fn law_safe_start(history: Seq<MessageView>)
    ensures
        0 <= safe_start(history) <= history.len(),
        safe_start(history) < history.len() ==> clean_start(history, safe_start(history)),
        forall|j: int| 0 <= j < safe_start(history) ==> !#[trigger] clean_start(history, j),
{
    lemma_past_results(history, 0);
    lemma_safe_from(history, past_results(history, 0));
}

fn past_results_of(history: &[ChatMessage], from: usize) -> (r: usize)
    requires
        from <= history@.len(),
    ensures
        r == past_results(messages_view(history@), from as int),
        from <= r <= history@.len(),
{
    let ghost views = messages_view(history@);
    let mut i: usize = from;
    while i < history.len() && same_text(history[i].role.as_str(), "tool")
        invariant
            from <= i <= history@.len(),
            views == messages_view(history@),
            past_results(views, from as int) == past_results(views, i as int),
        decreases history.len() - i,
    {
        assert(views[i as int] == history@[i as int]@);
        i += 1;
    }
    assert(i < history@.len() ==> views[i as int] == history@[i as int]@);
    i
}

fn is_answered(history: &[ChatMessage], at: usize, id: &str) -> (r: bool)
    requires
        at < history@.len(),
    ensures
        r == answered(messages_view(history@), at as int, id@),
{
    let ghost views = messages_view(history@);
    assert(history@.len() == history.len());
    let end = past_results_of(history, at + 1);
    let mut j: usize = at + 1;
    while j < end
        invariant
            at < j <= end <= history@.len(),
            views == messages_view(history@),
            end == past_results(views, at + 1),
            forall|k: int| at < k < j ==> (#[trigger] views[k]).tool_call_id != Some(id@),
        decreases end - j,
    {
        assert(views[j as int] == history@[j as int]@);
        if let Some(found) = &history[j].tool_call_id {
            if same_text(found.as_str(), id) {
                assert(views[j as int].tool_call_id == Some(id@));
                return true;
            }
        }
        j += 1;
    }
    false
}

fn lacks_results_of(history: &[ChatMessage], at: usize) -> (r: bool)
    requires
        at < history@.len(),
    ensures
        r == lacks_results(messages_view(history@), at as int),
{
    let ghost views = messages_view(history@);
    assert(views[at as int] == history@[at as int]@);
    if !same_text(history[at].role.as_str(), "assistant") {
        return false;
    }
    match &history[at].tool_calls {
        None => false,
        Some(calls) => {
            let mut k: usize = 0;
            while k < calls.len()
                invariant
                    k <= calls.len(),
                    at < history@.len(),
                    views == messages_view(history@),
                    views[at as int].tool_calls == Some(calls_view(calls@)),
                    views[at as int].role == "assistant"@,
                    forall|m: int|
                        0 <= m < k ==> answered(
                            views,
                            at as int,
                            (#[trigger] views[at as int].tool_calls->0[m]).id,
                        ),
                decreases calls.len() - k,
            {
                assert(views[at as int].tool_calls->0[k as int] == calls@[k as int]@);
                if !is_answered(history, at, calls[k].id.as_str()) {
                    return true;
                }
                k += 1;
            }
            false
        },
    }
}

/// Where a shortened conversation can start without orphaned results of tools and without calls
/// that lack theirs.
pub fn find_safe_history_start(history: &[ChatMessage]) -> (r: usize)
    ensures
        r == safe_start(messages_view(history@)),
        r <= history@.len(),
{
    let ghost views = messages_view(history@);
    let mut i: usize = past_results_of(history, 0);
    while i < history.len()
        invariant_except_break
            i <= history@.len(),
            views == messages_view(history@),
            safe_start(views) == safe_from(views, i as int),
        ensures
            i <= history@.len(),
            safe_start(views) == i,
        decreases history.len() - i,
    {
        if !lacks_results_of(history, i) {
            break ;
        }
        i = past_results_of(history, i + 1);
    }
    i
}

} // verus!
