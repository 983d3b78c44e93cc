//! What holds of estimates, of shortened messages and of compressed conversations.

use crate::compress::{
    compressed, first_of_role, flat, kept_rounds, kept_start, lacks_results, last_answer,
    law_rounds_partition, lemma_past_results, older_rounds, past_results, rounds, short_round,
    with_kept_rounds,
};
use crate::history::{
    capped, content_text, ends_word, estimate, head_tail, history_tokens,
    lemma_history_tokens_concat, message_tokens, text_tokens, trimmed_message, trimmed_messages,
};
use crate::text::decimal;
use crate::types::{text_message, MessageView};
use crate::value::JsonView;
use vstd::prelude::*;

verus! {

// ---------------------------------------------------------------------------
// Estimates
// ---------------------------------------------------------------------------

/// A letter or a digit of ASCII.
pub open spec fn alphanumeric(c: char) -> bool {
    'a' <= c <= 'z' || 'A' <= c <= 'Z' || '0' <= c <= '9'
}

proof fn lemma_letters(s: Seq<char>, rest: Seq<char>, letters: nat)
    requires
        forall|i: int| 0 <= i < s.len() ==> alphanumeric(#[trigger] s[i]),
    ensures
        text_tokens(s + rest, letters) == text_tokens(rest, letters + s.len()),
    decreases s.len(),
{
    if s.len() == 0 {
        assert(s + rest =~= rest);
    } else {
        assert(alphanumeric(s[0]));
        assert((s + rest).skip(1) =~= s.skip(1) + rest);
        lemma_letters(s.skip(1), rest, letters + 1);
    }
}

/// A word counts for one token and one more for every four letters, a space or a mark behind it
/// for one, and a character beyond ASCII for one; what follows is counted in the same way.
pub proof fn law_estimate_counts_words(word: Seq<char>, c: char, rest: Seq<char>)
    requires
        forall|i: int| 0 <= i < word.len() ==> alphanumeric(#[trigger] word[i]),
        c == ' ' || c == '\n' || c == '.' || c == ',' || c == '?' || c == '"' || c == '{' || c
            >= '\u{80}',
    ensures
        estimate(word + seq![c] + rest) == 5 + (if word.len() > 0 {
            1 + word.len() / 4
        } else {
            0
        }) + (if rest.len() > 0 {
            (estimate(rest) - 4) as nat
        } else {
            0
        }),
        word.len() > 0 ==> estimate(word) == 5 + word.len() / 4,
        estimate(Seq::empty()) == 0,
{
    reveal_with_fuel(text_tokens, 2);
    let s = word + seq![c] + rest;
    assert(s =~= word + (seq![c] + rest));
    assert((seq![c] + rest)[0] == c && ends_word(c));
    lemma_letters(word, seq![c] + rest, 0);
    assert((seq![c] + rest).skip(1) =~= rest);
    lemma_letters(word, Seq::empty(), 0);
    assert(word + Seq::empty() =~= word);
}

/// The estimate for a conversation is that of its messages together; a message with a text counts
/// for its text and four.
pub proof fn law_estimates_add_up(a: Seq<MessageView>, b: Seq<MessageView>, m: MessageView, s: Seq<char>)
    requires
        m.content == JsonView::Str(s),
        m.tool_calls is None,
    ensures
        history_tokens(a + b) == history_tokens(a) + history_tokens(b),
        history_tokens(seq![m]) == message_tokens(m),
        message_tokens(m) == estimate(s) + 4,
{
    lemma_history_tokens_concat(a, b);
    assert(seq![m].drop_last() =~= Seq::empty());
    reveal_with_fuel(history_tokens, 2);
}

// ---------------------------------------------------------------------------
// Shortened messages
// ---------------------------------------------------------------------------

/// How many characters of a text a message of this role may have.
pub open spec fn allowed(role: Seq<char>, n: nat) -> bool {
    (role == "tool"@ ==> n <= 2400) && (role == "system"@ ==> n <= 8000) && (role != "tool"@ && role
        != "system"@ ==> n <= 1400)
}

/// A message whose text is short enough stays as it is.
pub proof fn law_short_message_stays(m: MessageView, s: Seq<char>)
    requires
        m.content == JsonView::Str(s),
        allowed(m.role, s.len()),
    ensures
        trimmed_message(m) == m,
{
    reveal_strlit("tool");
    reveal_strlit("system");
    assert("tool"@[0] == 't' && "system"@[0] == 's');
}

/// A shortened message keeps all but its text; a longer text keeps its first two thirds and its
/// end, and says how many characters are left out.
pub proof fn law_shortened_message(m: MessageView, s: Seq<char>, max: nat)
    requires
        m.content == JsonView::Str(s),
        !allowed(m.role, s.len()),
        allowed(m.role, max),
        !allowed(m.role, max + 1),
    ensures
        trimmed_message(m).role == m.role,
        trimmed_message(m).tool_calls == m.tool_calls,
        trimmed_message(m).tool_call_id == m.tool_call_id,
        trimmed_message(m).name == m.name,
        trimmed_message(m).reasoning_content == m.reasoning_content,
        trimmed_message(m).content == JsonView::Str(
            s.take(((2 * max) / 3) as int) + "\n...<trimmed "@ + decimal((s.len() - max) as nat)
                + " chars>...\n"@ + s.skip(s.len() - (max - (2 * max) / 3)),
        ),
{
    reveal_strlit("tool");
    reveal_strlit("system");
    assert("tool"@[0] == 't' && "system"@[0] == 's');
    let head = (max * 2) / 3;
    let tail = max - head;
    assert(head_tail(s, max) =~= s.take(((2 * max) / 3) as int) + "\n...<trimmed "@ + decimal(
        (s.len() - max) as nat,
    ) + " chars>...\n"@ + s.skip(s.len() - (max - (2 * max) / 3)));
}

// ---------------------------------------------------------------------------
// Rounds
// ---------------------------------------------------------------------------

/// How many messages of the user there are.
pub open spec fn questions(history: Seq<MessageView>) -> nat
    decreases history.len(),
{
    if history.len() == 0 {
        0
    } else {
        questions(history.drop_last()) + (if history.last().role == "user"@ {
            1nat
        } else {
            0nat
        })
    }
}

/// How many rounds there are from position `p` on, where a round starts there.
pub open spec fn rounds_from(history: Seq<MessageView>, p: int) -> nat {
    1 + questions(history.skip(p + 1))
}

/// A round starts at the beginning and with each message of the user.
pub open spec fn starts_round(history: Seq<MessageView>, p: int) -> bool {
    0 <= p < history.len() && (p == 0 || history[p].role == "user"@)
}

proof fn lemma_rounds_split(history: Seq<MessageView>, p: int)
    requires
        starts_round(history, p),
    ensures
        rounds(history) == rounds(history.take(p)) + rounds(history.skip(p)),
    decreases history.len(),
{
    let a = history.take(p);
    let b = history.skip(p);
    if p == 0 {
        assert(a =~= Seq::empty());
        assert(b =~= history);
        assert(rounds(a) + rounds(b) =~= rounds(b));
    } else if p == history.len() - 1 {
        assert(history.drop_last() =~= a);
        assert(b =~= seq![history.last()]);
        assert(b.drop_last() =~= Seq::empty());
        assert(rounds(b.drop_last()) =~= Seq::empty());
        assert(rounds(b) =~= seq![seq![history.last()]]);
        assert(rounds(history) =~= rounds(a) + rounds(b));
    } else {
        let prior = history.drop_last();
        lemma_rounds_split(prior, p);
        assert(prior.take(p) =~= a);
        assert(prior.skip(p) =~= b.drop_last());
        law_rounds_partition(b.drop_last());
        assert(b.drop_last().len() > 0);
        assert(rounds(history) =~= rounds(a) + rounds(b));
    }
}

proof fn lemma_rounds_count(history: Seq<MessageView>)
    requires
        history.len() > 0,
    ensures
        rounds(history).len() == 1 + questions(history.skip(1)),
    decreases history.len(),
{
    if history.len() == 1 {
        assert(history.skip(1) =~= Seq::empty());
        assert(history.drop_last() =~= Seq::empty());
        assert(rounds(history.drop_last()) =~= Seq::empty());
    } else {
        lemma_rounds_count(history.drop_last());
        law_rounds_partition(history.drop_last());
        assert(history.skip(1).drop_last() =~= history.drop_last().skip(1));
    }
}

proof fn lemma_flat_concat(a: Seq<Seq<MessageView>>, b: Seq<Seq<MessageView>>)
    ensures
        flat(a + b) == flat(a) + flat(b),
    decreases b.len(),
{
    if b.len() == 0 {
        assert(a + b =~= a);
        assert(flat(a) + flat(b) =~= flat(a));
    } else {
        lemma_flat_concat(a, b.drop_last());
        assert((a + b).drop_last() =~= a + b.drop_last());
        assert((flat(a) + flat(b.drop_last())) + b.last() =~= flat(a) + flat(b));
    }
}

proof fn lemma_flat_trimmed(list: Seq<Seq<MessageView>>)
    ensures
        flat(list.map_values(|r: Seq<MessageView>| trimmed_messages(r))) == trimmed_messages(
            flat(list),
        ),
    decreases list.len(),
{
    let f = |r: Seq<MessageView>| trimmed_messages(r);
    if list.len() == 0 {
        assert(list.map_values(f) =~= Seq::empty());
        assert(trimmed_messages(flat(list)) =~= Seq::empty());
    } else {
        lemma_flat_trimmed(list.drop_last());
        assert(list.map_values(f).drop_last() =~= list.drop_last().map_values(f));
        assert(trimmed_messages(flat(list)) =~= trimmed_messages(flat(list.drop_last()))
            + trimmed_messages(list.last()));
    }
}

/// The rounds from position `p` on are the last ones, and hold what stands there.
proof fn lemma_last_rounds(history: Seq<MessageView>, p: int)
    requires
        starts_round(history, p),
    ensures
        ({
            let list = rounds(history);
            let n = rounds_from(history, p);
            &&& 0 < n <= list.len()
            &&& kept_rounds(list, list.len() - n) == trimmed_messages(history.skip(p))
            &&& p == 0 ==> n == list.len()
        }),
{
    let list = rounds(history);
    let n = rounds_from(history, p);
    let b = history.skip(p);
    lemma_rounds_split(history, p);
    lemma_rounds_count(b);
    assert(b.skip(1) =~= history.skip(p + 1));
    assert(list.skip(list.len() - n) =~= rounds(b));
    law_rounds_partition(b);
    lemma_flat_trimmed(rounds(b));
    if p == 0 {
        assert(history.take(0) =~= Seq::empty());
    }
}

/// The text ends with the other.
pub open spec fn ends_in(all: Seq<MessageView>, end: Seq<MessageView>) -> bool {
    end.len() <= all.len() && all.skip(all.len() - end.len()) == end
}

proof fn lemma_kept_ends_in(list: Seq<Seq<MessageView>>, older: Seq<MessageView>, a: int, b: int)
    requires
        0 <= a <= b <= list.len(),
    ensures
        ends_in(older + kept_rounds(list, a), kept_rounds(list, b)),
{
    let f = |r: Seq<MessageView>| trimmed_messages(r);
    let whole = list.skip(a).map_values(f);
    let end = list.skip(b).map_values(f);
    assert(whole =~= whole.take(b - a) + end);
    lemma_flat_concat(whole.take(b - a), end);
    let all = older + kept_rounds(list, a);
    assert(all =~= (older + flat(whole.take(b - a))) + kept_rounds(list, b));
    assert(all.skip(all.len() - kept_rounds(list, b).len()) =~= kept_rounds(list, b));
}

/// Where the last six, four or two rounds of a conversation fit into the budget, or the whole of
/// at most six, they stay at its end, message by message. A conversation of at most six rounds
/// that fits stays whole.
pub proof fn law_newest_rounds_stay(history: Seq<MessageView>, budget: nat, p: int)
    requires
        starts_round(history, p),
        rounds_from(history, p) == 6 || rounds_from(history, p) == 4 || rounds_from(history, p) == 2
            || (p == 0 && rounds_from(history, p) <= 6),
        capped(history_tokens(trimmed_messages(history.skip(p)))) <= budget,
        budget > 0,
    ensures
        ends_in(compressed(history, budget), trimmed_messages(history.skip(p))),
        p == 0 && rounds_from(history, p) <= 6 ==> compressed(history, budget) == trimmed_messages(
            history,
        ),
{
    let list = rounds(history);
    let n = rounds_from(history, p);
    let start = list.len() - n;
    lemma_last_rounds(history, p);
    let kept = trimmed_messages(history.skip(p));
    assert(kept.len() == history.len() - p > 0);
    assert forall|count: nat| count >= n || count == 6 implies ({
        let all = #[trigger] with_kept_rounds(list, count, budget);
        all is Some ==> ends_in(all->0, kept)
    }) by {
        let s = kept_start(list, count);
        if s <= start {
            let older = older_rounds(
                list.take(s),
                0,
                (budget - capped(history_tokens(kept_rounds(list, s)))) as nat,
            );
            lemma_kept_ends_in(list, older, s, start);
        }
    }
    if p == 0 && n <= 6 {
        assert(list.take(0) =~= Seq::empty());
        assert(history.skip(0) =~= history);
        let all = older_rounds(list.take(0), 0, (budget - capped(history_tokens(kept))) as nat) + kept;
        assert(all =~= kept);
        assert(with_kept_rounds(list, 6, budget) == Some(kept));
        assert(kept.skip(0) =~= kept);
    } else {
        let older = older_rounds(list.take(start), 0, (budget - capped(history_tokens(kept))) as nat);
        assert(with_kept_rounds(list, n, budget) == Some(older + kept));
    }
}

// ---------------------------------------------------------------------------
// Rounds in short
// ---------------------------------------------------------------------------

/// Rounds in short, one behind the other; those in which nothing was asked are left out.
pub open spec fn in_short(list: Seq<Seq<MessageView>>) -> Seq<MessageView>
    decreases list.len(),
{
    if list.len() == 0 {
        Seq::empty()
    } else {
        in_short(list.drop_last()) + match short_round(list.last()) {
            Some(pair) => pair,
            None => Seq::empty(),
        }
    }
}

proof fn lemma_in_short_concat(a: Seq<Seq<MessageView>>, b: Seq<Seq<MessageView>>)
    ensures
        in_short(a + b) == in_short(a) + in_short(b),
    decreases b.len(),
{
    if b.len() == 0 {
        assert(a + b =~= a);
        assert(in_short(a) + in_short(b) =~= in_short(a));
    } else {
        lemma_in_short_concat(a, b.drop_last());
        assert((a + b).drop_last() =~= a + b.drop_last());
        assert(in_short(a + b) =~= in_short(a) + in_short(b));
    }
}

/// Where the run of short rounds that is kept starts: as early as the limit lets it.
proof fn lemma_longest_run(list: Seq<Seq<MessageView>>, spent: nat, limit: nat) -> (a: int)
    requires
        capped(spent) <= limit,
    ensures
        0 <= a <= list.len(),
        older_rounds(list, spent, limit) == in_short(list.skip(a)),
        capped(spent + history_tokens(in_short(list.skip(a)))) <= limit,
        forall|b: int|
            0 <= b < a ==> capped(
                spent + history_tokens(in_short(#[trigger] list.skip(b))),
            ) > limit,
    decreases list.len(),
{
    if list.len() == 0 {
        assert(list.skip(0) =~= Seq::empty());
        0
    } else {
        let prior = list.drop_last();
        let last = short_round(list.last());
        let pair = match last {
            Some(pair) => pair,
            None => Seq::empty(),
        };
        assert forall|b: int| 0 <= b <= prior.len() implies in_short(#[trigger] list.skip(b))
            == in_short(prior.skip(b)) + pair by {
            assert(list.skip(b).drop_last() =~= prior.skip(b));
            assert(list.skip(b).last() == list.last());
        }
        assert forall|b: int| 0 <= b <= prior.len() implies history_tokens(
            in_short(#[trigger] list.skip(b)),
        ) == history_tokens(in_short(prior.skip(b))) + history_tokens(pair) by {
            lemma_history_tokens_concat(in_short(prior.skip(b)), pair);
        }
        if last is None {
            let a = lemma_longest_run(prior, spent, limit);
            assert(history_tokens(pair) == 0);
            assert(in_short(list.skip(a)) =~= in_short(prior.skip(a)));
            assert forall|b: int| 0 <= b < a implies capped(
                spent + history_tokens(in_short(#[trigger] list.skip(b))),
            ) > limit by {
                assert(capped(spent + history_tokens(in_short(prior.skip(b)))) > limit);
            }
            a
        } else if capped(spent + history_tokens(pair)) > limit {
            assert(list.skip(list.len() as int) =~= Seq::empty());
            list.len() as int
        } else {
            let a = lemma_longest_run(prior, spent + history_tokens(pair), limit);
            assert forall|b: int| 0 <= b < a implies capped(
                spent + history_tokens(in_short(#[trigger] list.skip(b))),
            ) > limit by {
                assert(capped(
                    spent + history_tokens(pair) + history_tokens(in_short(prior.skip(b))),
                ) > limit);
            }
            a
        }
    }
}

/// The last rounds, as many as there are up to `count`.
pub open spec fn last_rounds(list: Seq<Seq<MessageView>>, count: nat) -> Seq<Seq<MessageView>> {
    if list.len() <= count {
        list
    } else {
        list.skip(list.len() - count)
    }
}

/// The rounds before the last ones.
pub open spec fn first_rounds(list: Seq<Seq<MessageView>>, count: nat) -> Seq<Seq<MessageView>> {
    if list.len() <= count {
        Seq::empty()
    } else {
        list.take(list.len() - count)
    }
}

/// The last rounds do not fit into the budget.
pub open spec fn too_long(list: Seq<Seq<MessageView>>, count: nat, budget: nat) -> bool {
    history_tokens(trimmed_messages(flat(last_rounds(list, count)))) > budget
}

/// Where no greater number of whole rounds fits, the last `count` stay whole, and before them all
/// short rounds that fit as well: whatever run of newest short rounds fits is there.
pub proof fn law_all_that_fits_is_kept(history: Seq<MessageView>, budget: nat, count: nat, b: int)
    requires
        history.len() > 0,
        0 < budget < usize::MAX,
        count == 6 || count == 4 || count == 2 || count == 0,
        count < 6 ==> too_long(rounds(history), 6, budget),
        count < 4 ==> too_long(rounds(history), 4, budget),
        count < 2 ==> too_long(rounds(history), 2, budget),
        0 <= b <= first_rounds(rounds(history), count).len(),
        ({
            let all = in_short(first_rounds(rounds(history), count).skip(b)) + trimmed_messages(
                flat(last_rounds(rounds(history), count)),
            );
            all.len() > 0 && history_tokens(all) <= budget
        }),
    ensures
        ({
            let list = rounds(history);
            let whole = trimmed_messages(flat(last_rounds(list, count)));
            let result = compressed(history, budget);
            &&& ends_in(result, in_short(first_rounds(list, count).skip(b)) + whole)
            &&& history_tokens(result) <= budget
            &&& exists|a: int|
                0 <= a <= b && result == in_short(#[trigger] first_rounds(list, count).skip(a))
                    + whole
        }),
{
    let list = rounds(history);
    let start = kept_start(list, count);
    let whole = trimmed_messages(flat(last_rounds(list, count)));
    lemma_kept_is_whole(list, count);
    lemma_kept_is_whole(list, 6);
    lemma_kept_is_whole(list, 4);
    lemma_kept_is_whole(list, 2);
    let firsts = first_rounds(list, count);
    assert(list.take(start) =~= firsts);
    let wanted = in_short(firsts.skip(b));
    lemma_history_tokens_concat(wanted, whole);
    let limit = (budget - capped(history_tokens(whole))) as nat;
    let a = lemma_longest_run(firsts, 0, limit);
    if b < a {
        assert(capped(history_tokens(in_short(firsts.skip(b)))) > limit);
    }
    let older = in_short(firsts.skip(a));
    assert(firsts.skip(a) =~= firsts.subrange(a, b) + firsts.skip(b));
    lemma_in_short_concat(firsts.subrange(a, b), firsts.skip(b));
    let result = older + whole;
    assert(result =~= in_short(firsts.subrange(a, b)) + (wanted + whole));
    assert(result.skip(result.len() - (wanted + whole).len()) =~= wanted + whole);
    lemma_history_tokens_concat(older, whole);
    assert(with_kept_rounds(list, count, budget) == Some(result));
    assert(compressed(history, budget) == result);
}

/// Where not even the last round in short fits, it is what is left.
pub proof fn law_last_round_is_left(history: Seq<MessageView>, budget: nat)
    requires
        history.len() > 0,
        0 < budget < usize::MAX,
        too_long(rounds(history), 6, budget),
        too_long(rounds(history), 4, budget),
        too_long(rounds(history), 2, budget),
        short_round(rounds(history).last()) is Some,
        history_tokens(short_round(rounds(history).last())->0) > budget,
    ensures
        compressed(history, budget) == short_round(rounds(history).last())->0,
{
    let list = rounds(history);
    law_rounds_partition(history);
    lemma_kept_is_whole(list, 6);
    lemma_kept_is_whole(list, 4);
    lemma_kept_is_whole(list, 2);
    lemma_kept_is_whole(list, 0);
    assert(last_rounds(list, 0) =~= Seq::empty());
    assert(trimmed_messages(flat(last_rounds(list, 0))) =~= Seq::empty());
    assert(list.take(list.len() as int) =~= list);
    assert(older_rounds(list, 0, budget) =~= Seq::empty());
    let none = Seq::<MessageView>::empty();
    assert(none + none =~= none);
}

proof fn lemma_kept_is_whole(list: Seq<Seq<MessageView>>, count: nat)
    ensures
        kept_rounds(list, kept_start(list, count)) == trimmed_messages(
            flat(last_rounds(list, count)),
        ),
{
    assert(list.skip(0) =~= list);
    lemma_flat_trimmed(last_rounds(list, count));
}

proof fn lemma_first_of_role(round: Seq<MessageView>, role: Seq<char>, u: int)
    requires
        0 <= u < round.len(),
        round[u].role == role,
        forall|i: int| 0 <= i < u ==> (#[trigger] round[i]).role != role,
    ensures
        first_of_role(round, role) == Some(round[u]),
    decreases round.len(),
{
    if u > 0 {
        assert(round[0].role != role);
        let rest = round.skip(1);
        assert forall|i: int| 0 <= i < u - 1 implies (#[trigger] rest[i]).role != role by {
            assert(rest[i] == round[i + 1]);
        }
        lemma_first_of_role(rest, role, u - 1);
    }
}

/// The message is an answer; with `plain`, one that asks for no tools.
pub open spec fn is_answer(m: MessageView, plain: bool) -> bool {
    m.role == "assistant"@ && (plain ==> m.tool_calls is None)
}

proof fn lemma_last_answer(round: Seq<MessageView>, plain: bool, v: int)
    requires
        0 <= v < round.len(),
        is_answer(round[v], plain),
        forall|i: int| v < i < round.len() ==> !is_answer(#[trigger] round[i], plain),
    ensures
        last_answer(round, plain) == Some(round[v]),
    decreases round.len(),
{
    if v < round.len() - 1 {
        assert(!is_answer(round[round.len() - 1], plain));
        lemma_last_answer(round.drop_last(), plain, v);
    }
}

proof fn lemma_no_answer(round: Seq<MessageView>, plain: bool)
    requires
        forall|i: int| 0 <= i < round.len() ==> !is_answer(#[trigger] round[i], plain),
    ensures
        last_answer(round, plain) is None,
    decreases round.len(),
{
    if round.len() > 0 {
        assert(!is_answer(round[round.len() - 1], plain));
        lemma_no_answer(round.drop_last(), plain);
    }
}

/// A round in short is its first question and its last answer that asks for no tools; where all
/// ask for tools it is the last of them.
pub proof fn law_round_in_short(round: Seq<MessageView>, u: int, v: int)
    requires
        0 <= u < round.len(),
        round[u].role == "user"@,
        forall|i: int| 0 <= i < u ==> (#[trigger] round[i]).role != "user"@,
        0 <= v < round.len(),
        is_answer(round[v], false),
        is_answer(round[v], true) || forall|i: int|
            0 <= i < round.len() ==> !is_answer(#[trigger] round[i], true),
        forall|i: int|
            v < i < round.len() ==> !is_answer(#[trigger] round[i], is_answer(round[v], true)),
    ensures
        short_round(round) == Some(
            seq![
                text_message("user"@, head_tail(content_text(round[u].content, " "@), 200)),
                text_message("assistant"@, head_tail(content_text(round[v].content, " "@), 400)),
            ],
        ),
{
    lemma_first_of_role(round, "user"@, u);
    if is_answer(round[v], true) {
        lemma_last_answer(round, true, v);
    } else {
        lemma_no_answer(round, true);
        lemma_last_answer(round, false, v);
    }
}

/// A round without an answer says so in short.
pub proof fn law_unanswered_round_in_short(round: Seq<MessageView>, u: int)
    requires
        0 <= u < round.len(),
        round[u].role == "user"@,
        forall|i: int| 0 <= i < u ==> (#[trigger] round[i]).role != "user"@,
        forall|i: int| 0 <= i < round.len() ==> (#[trigger] round[i]).role != "assistant"@,
    ensures
        short_round(round) == Some(
            seq![
                text_message("user"@, head_tail(content_text(round[u].content, " "@), 200)),
                text_message("assistant"@, head_tail("(completed with tool calls)"@, 400)),
            ],
        ),
{
    lemma_first_of_role(round, "user"@, u);
    lemma_no_answer(round, true);
    lemma_no_answer(round, false);
}

// ---------------------------------------------------------------------------
// A safe start
// ---------------------------------------------------------------------------

/// A message lacks results just where, among the results that directly follow it up to `m`, none
/// answers one of its calls.
pub proof fn law_lacking_results(history: Seq<MessageView>, i: int, m: int)
    requires
        0 <= i < m <= history.len(),
        history[i].role == "assistant"@,
        history[i].tool_calls is Some,
        forall|j: int| i < j < m ==> (#[trigger] history[j]).role == "tool"@,
        m < history.len() ==> history[m].role != "tool"@,
    ensures
        lacks_results(history, i) <==> exists|k: int|
            0 <= k < history[i].tool_calls->0.len() && forall|j: int|
                i < j < m ==> (#[trigger] history[j]).tool_call_id != Some(
                    (#[trigger] history[i].tool_calls->0[k]).id,
                ),
{
    lemma_past_results(history, i + 1);
    let p = past_results(history, i + 1);
    if p < m {
        assert(history[p].role == "tool"@);
    } else if m < p {
        assert(history[m].role == "tool"@);
    }
    assert(p == m);
    let calls = history[i].tool_calls->0;
    if lacks_results(history, i) {
        let k = choose|k: int|
            0 <= k < calls.len() && !crate::compress::answered(
                history,
                i,
                (#[trigger] calls[k]).id,
            );
        assert forall|j: int| i < j < m implies (#[trigger] history[j]).tool_call_id != Some(
            calls[k].id,
        ) by {
            if history[j].tool_call_id == Some(calls[k].id) {
                assert(crate::compress::answered(history, i, calls[k].id));
            }
        }
    }
    if exists|k: int|
        0 <= k < calls.len() && forall|j: int|
            i < j < m ==> (#[trigger] history[j]).tool_call_id != Some(
                (#[trigger] calls[k]).id,
            ) {
        let k = choose|k: int|
            0 <= k < calls.len() && forall|j: int|
                i < j < m ==> (#[trigger] history[j]).tool_call_id != Some(
                    (#[trigger] calls[k]).id,
                );
        assert(!crate::compress::answered(history, i, calls[k].id));
    }
}

} // verus!
