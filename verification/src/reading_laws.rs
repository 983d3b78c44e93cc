//! What holds of the tool calls that are read out of a text: what is written in one of the forms
//! is read back.

use crate::json::{json_parsed, law_insert_then_lookup, lookup};
use crate::openai::{
    arrow_arguments, arrow_operand, arrow_value, arrow_word_len, assigned_parameters, braced,
    bracket_call, bracket_pass, called_pass, closing_brace, dash_args, float_reading,
    function_block, invocation_at, invoke_pass, named_parameters, option_members, option_text,
    option_value, options, parameter_at, read_members, tagged_call, tagged_pass, text_call,
    text_members, text_tool_calls, value_or_text,
};
use crate::text::{
    decimal_int, integer, is_space, join, lower, occurs_at, split, split_fold, starts_with,
    strip_prefix, trim, trim_end_of, trim_start, trim_start_of,
};
use crate::text_laws::{
    lacks, law_no_split_fold_without_pattern, law_no_split_without_pattern, law_prefix_is_stripped,
    law_split_at_the_first, law_split_fold_at_the_first, law_trim, leads_to, lemma_lacks_leads,
    lemma_trim_start_spaces, lemma_trim_tight, spaces, tight,
};
use crate::types::{or_empty, ToolCallView};
use crate::value::JsonView;
use vstd::prelude::*;

verus! {

// ---------------------------------------------------------------------------
// Letters and tags
// ---------------------------------------------------------------------------

/// A character that is no letter is missing from a text in lower case too.
pub proof fn lemma_lower_lacks(s: Seq<char>, c: char)
    requires
        lacks(s, c),
        !('a' <= c <= 'z'),
    ensures
        lacks(lower(s), c),
{
}

proof fn lemma_lower_sum(a: Seq<char>, b: Seq<char>)
    ensures
        lower(a + b) == lower(a) + lower(b),
{
    assert(lower(a + b) =~= lower(a) + lower(b));
}

/// Splitting at a tag, whatever the case of its letters, behind a text without angle bracket or
/// square bracket.
proof fn lemma_split_tag(head: Seq<char>, tag: Seq<char>, tail: Seq<char>, c: char)
    requires
        lower(tag).len() > 0,
        lower(tag)[0] == c,
        lacks(head, c),
        !('a' <= c <= 'z'),
    ensures
        split_fold(head + tag + tail, lower(tag)) == Some((head, tail)),
{
    lemma_lower_lacks(head, c);
    lemma_lacks_leads(lower(head), lower(tag));
    law_split_fold_at_the_first(head, tag, tail);
}

/// A text that can stand as a name or a value between tags: not empty, without white space around
/// it and without angle brackets.
pub open spec fn plain_word(s: Seq<char>) -> bool {
    s.len() > 0 && tight(s) && lacks(s, '<') && lacks(s, '>')
}

pub open spec fn plain_pairs(pairs: Seq<(Seq<char>, Seq<char>)>) -> bool {
    forall|i: int|
        0 <= i < pairs.len() ==> plain_word((#[trigger] pairs[i]).0) && plain_word(pairs[i].1)
}

// ---------------------------------------------------------------------------
// <parameter=name>value</parameter>
// ---------------------------------------------------------------------------

/// Pairs, each written as `gap`, the opening tag with the name, the value and the closing tag.
pub open spec fn written_parameters(
    pairs: Seq<(Seq<char>, Seq<char>)>,
    gap: Seq<char>,
    open: Seq<char>,
    close: Seq<char>,
) -> Seq<char>
    decreases pairs.len(),
{
    if pairs.len() == 0 {
        Seq::empty()
    } else {
        gap + open + pairs[0].0 + ">"@ + pairs[0].1 + close + written_parameters(
            pairs.skip(1),
            gap,
            open,
            close,
        )
    }
}

/// Pairs that are written one behind the other, as `<parameter=name>value</parameter>` with tags
/// of any case, are read back: all of them, in order, and nothing else.
pub proof fn law_parameters_read_back(
    pairs: Seq<(Seq<char>, Seq<char>)>,
    gap: Seq<char>,
    open: Seq<char>,
    close: Seq<char>,
    end: Seq<char>,
)
    requires
        plain_pairs(pairs),
        lacks(gap, '<'),
        lacks(end, '<'),
        lower(open) == "<parameter="@,
        lower(close) == "</parameter>"@,
    ensures
        assigned_parameters(written_parameters(pairs, gap, open, close) + end) == pairs,
    decreases pairs.len(),
{
    reveal_strlit("<parameter=");
    reveal_strlit("</parameter>");
    reveal_strlit(">");
    let s = written_parameters(pairs, gap, open, close) + end;
    if pairs.len() == 0 {
        assert(s =~= end);
        lemma_lower_lacks(end, '<');
        law_no_split_fold_without_pattern(end, "<parameter="@);
        assert(assigned_parameters(s) =~= pairs);
    } else {
        let (name, value) = pairs[0];
        let rest = written_parameters(pairs.skip(1), gap, open, close) + end;
        let value_text = value + close + rest;
        let after = name + ">"@ + value_text;
        assert(s =~= gap + open + after);
        lemma_split_tag(gap, open, after, '<');
        lemma_lacks_leads(name, ">"@);
        law_split_at_the_first(name, ">"@, value_text);
        lemma_trim_tight(name);
        lemma_trim_tight(value);
        lemma_split_tag(value, close, rest, '<');
        assert forall|i: int| 0 <= i < pairs.skip(1).len() implies plain_word(
            (#[trigger] pairs.skip(1)[i]).0,
        ) && plain_word(pairs.skip(1)[i].1) by {
            assert(pairs.skip(1)[i] == pairs[i + 1]);
        }
        law_parameters_read_back(pairs.skip(1), gap, open, close, end);
        assert(assigned_parameters(s) == seq![(name, value)] + pairs.skip(1));
        assert(seq![(name, value)] + pairs.skip(1) =~= pairs);
    }
}

/// A tag does not stand in the two texts together where it stands in neither, the first ends with
/// an angle bracket, and the tag has one at its end only.
proof fn lemma_leads_on(a: Seq<char>, b: Seq<char>, pat: Seq<char>)
    requires
        pat.len() > 0,
        forall|j: int| 0 <= j < pat.len() - 1 ==> (#[trigger] pat[j]) != '>',
        a.len() > 0 ==> a.last() == '>',
        leads_to(a, pat),
        leads_to(b, pat),
    ensures
        leads_to(a + b, pat),
{
    let s = a + b + pat;
    assert forall|i: int| 0 <= i < (a + b).len() implies !#[trigger] occurs_at(s, pat, i) by {
        if occurs_at(s, pat, i) {
            assert(s.subrange(i, i + pat.len()) == pat);
            if i < a.len() {
                if i + pat.len() <= a.len() {
                    assert((a + pat).subrange(i, i + pat.len()) =~= s.subrange(i, i + pat.len()));
                    assert(occurs_at(a + pat, pat, i));
                } else {
                    let j = a.len() - 1 - i;
                    assert(s.subrange(i, i + pat.len())[j] == a.last());
                    assert(pat[j] != '>');
                }
            } else {
                let k = i - a.len();
                assert((b + pat).subrange(k, k + pat.len()) =~= s.subrange(i, i + pat.len()));
                assert(occurs_at(b + pat, pat, k));
            }
        }
    }
}

/// Written parameters hold no closing tag of a function.
proof fn lemma_parameters_lead(
    pairs: Seq<(Seq<char>, Seq<char>)>,
    gap: Seq<char>,
    open: Seq<char>,
    close: Seq<char>,
)
    requires
        plain_pairs(pairs),
        lacks(gap, '<'),
        lower(open) == "<parameter="@,
        lower(close) == "</parameter>"@,
    ensures
        leads_to(lower(written_parameters(pairs, gap, open, close)), "</function>"@),
    decreases pairs.len(),
{
    reveal_strlit("<parameter=");
    reveal_strlit("</parameter>");
    reveal_strlit("</function>");
    reveal_strlit(">");
    if pairs.len() > 0 {
        let (name, value) = pairs[0];
        let pat = "</function>"@;
        let one = gap + open + name + ">"@ + value + close;
        let rest = written_parameters(pairs.skip(1), gap, open, close);
        assert forall|i: int| 0 <= i < pairs.skip(1).len() implies plain_word(
            (#[trigger] pairs.skip(1)[i]).0,
        ) && plain_word(pairs.skip(1)[i].1) by {
            assert(pairs.skip(1)[i] == pairs[i + 1]);
        }
        lemma_parameters_lead(pairs.skip(1), gap, open, close);
        lemma_lower_sum(one, rest);
        let a = lower(one);
        let n = gap.len() as int;
        let m = (one.len() - close.len()) as int;
        assert(lower(open).len() == open.len());
        assert(lower(close).len() == close.len());
        assert(lower(close)[11] == '>');
        assert(one.last() == close[11]);
        assert(one[n + 1] == open[1]);
        assert(one[m + 2] == close[2]);
        assert(a.last() == lower(close)[11]);
        assert(lower(open)[1] == 'p');
        assert(lower(close)[2] == 'p');
        assert forall|i: int| 0 <= i < a.len() implies !#[trigger] occurs_at(a + pat, pat, i) by {
            if occurs_at(a + pat, pat, i) {
                let found = (a + pat).subrange(i, i + pat.len());
                assert(found[0] == a[i]);
                assert(pat[0] == '<');
                lemma_lower_lacks(gap, '<');
                lemma_lower_lacks(name, '<');
                lemma_lower_lacks(value, '<');
                lemma_only_tags(gap, open, name, value, close, i);
                if i == n {
                    assert(found[1] == a[n + 1]);
                    assert(a[n + 1] == lower(open)[1]);
                } else {
                    assert(found[2] == a[m + 2]);
                    assert(a[m + 2] == lower(close)[2]);
                }
            }
        }
        lemma_leads_on(a, lower(rest), pat);
        assert(one + rest =~= written_parameters(pairs, gap, open, close));
    }
}

/// An angle bracket stands in a written pair only where a tag starts.
proof fn lemma_only_tags(
    gap: Seq<char>,
    open: Seq<char>,
    name: Seq<char>,
    value: Seq<char>,
    close: Seq<char>,
    i: int,
)
    requires
        lacks(gap, '<'),
        lacks(name, '<'),
        lacks(value, '<'),
        lower(open) == "<parameter="@,
        lower(close) == "</parameter>"@,
        0 <= i < (gap + open + name + ">"@ + value + close).len(),
        lower(gap + open + name + ">"@ + value + close)[i] == '<',
    ensures
        i == gap.len() || i == (gap + open + name + ">"@ + value).len(),
{
    reveal_strlit("<parameter=");
    reveal_strlit("</parameter>");
    reveal_strlit(">");
    let s = gap + open + name + ">"@ + value + close;
    let o = gap.len() as int;
    let m = o + open.len();
    let g = m + name.len();
    let v = g + 1;
    let c = v + value.len();
    assert(lower(open).len() == open.len());
    assert(lower(close).len() == close.len());
    assert(lower(s)[i] == '<');
    assert(s[i] == '<');
    if i < o {
        assert(s[i] == gap[i]);
    } else if i < m {
        assert(s[i] == open[i - o]);
        assert(lower(open)[i - o] == '<');
        assert("<parameter="@[i - o] == '<');
        lemma_tag_starts(i - o);
    } else if i < g {
        assert(s[i] == name[i - m]);
    } else if i < v {
        assert(s[i] == ">"@[0]);
    } else if i < c {
        assert(s[i] == value[i - v]);
    } else {
        assert(s[i] == close[i - c]);
        assert(lower(close)[i - c] == '<');
        assert("</parameter>"@[i - c] == '<');
        lemma_tag_starts(i - c);
    }
}

proof fn lemma_tag_starts(k: int)
    ensures
        0 < k < 11 ==> "<parameter="@[k] != '<',
        0 < k < 12 ==> "</parameter>"@[k] != '<',
{
    reveal_strlit("<parameter=");
    reveal_strlit("</parameter>");
    if k == 1 {
    } else if k == 2 {
    } else if k == 3 {
    } else if k == 4 {
    } else if k == 5 {
    } else if k == 6 {
    } else if k == 7 {
    } else if k == 8 {
    } else if k == 9 {
    } else if k == 10 {
    } else if k == 11 {
    }
}

/// A block `<function=name>` with written parameters up to `</function>` gives back the name and
/// all the pairs; what follows the block does not matter.
pub proof fn law_function_block_reads_back(
    name: Seq<char>,
    pairs: Seq<(Seq<char>, Seq<char>)>,
    gap: Seq<char>,
    function: Seq<char>,
    open: Seq<char>,
    close: Seq<char>,
    done: Seq<char>,
)
    requires
        plain_word(name),
        plain_pairs(pairs),
        lacks(gap, '<'),
        lower(function) == "<function="@,
        lower(open) == "<parameter="@,
        lower(close) == "</parameter>"@,
        lower(done) == "</function>"@,
    ensures
        function_block(
            function + name + ">"@ + written_parameters(pairs, gap, open, close) + done,
        ) == Some((name, pairs)),
{
    reveal_strlit("<function=");
    reveal_strlit("</function>");
    reveal_strlit(">");
    let params = written_parameters(pairs, gap, open, close);
    let block = function + name + ">"@ + params + done;
    assert(lower(function)[0] == '<');
    assert(function[0] == '<');
    assert(lower(done)[10] == '>');
    assert(done[10] == '>' && done.last() == '>');
    assert(block[0] == function[0] && block.last() == done.last());
    lemma_trim_tight(block);
    let body = params + done;
    assert(block =~= Seq::empty() + function + (name + ">"@ + body));
    lemma_split_tag(Seq::empty(), function, name + ">"@ + body, '<');
    lemma_lacks_leads(name, ">"@);
    law_split_at_the_first(name, ">"@, body);
    lemma_trim_tight(name);
    lemma_parameters_lead(pairs, gap, open, close);
    law_split_fold_at_the_first(params, done, Seq::empty());
    assert(params + done + Seq::empty() =~= body);
    law_parameters_read_back(pairs, gap, open, close, Seq::empty());
    assert(params + Seq::empty() =~= params);
}

/// Of the members that pairs make, each name has the value of its last pair, read as JSON where it
/// is JSON and as text where it is not, or as text always; other names have none.
pub proof fn law_members_of_pairs(pairs: Seq<(Seq<char>, Seq<char>)>, name: Seq<char>, i: int)
    requires
        -1 <= i < pairs.len(),
        i >= 0 ==> pairs[i].0 == name,
        forall|j: int| i < j < pairs.len() ==> (#[trigger] pairs[j]).0 != name,
    ensures
        i < 0 ==> lookup(read_members(pairs), name) is None,
        i < 0 ==> lookup(text_members(pairs), name) is None,
        i >= 0 ==> lookup(text_members(pairs), name) == Some(JsonView::Str(pairs[i].1)),
        i >= 0 ==> match json_parsed(pairs[i].1) {
            Some(value) => lookup(read_members(pairs), name) == Some(value),
            None => lookup(read_members(pairs), name) == Some(JsonView::Str(pairs[i].1)),
        },
    decreases pairs.len(),
{
    if pairs.len() > 0 {
        let last = pairs.last();
        let prior = pairs.drop_last();
        let read = value_or_text(json_parsed(last.1), last.1);
        assert(name.push('x').len() != name.len());
        if i == pairs.len() - 1 {
            law_insert_then_lookup(read_members(prior), name, read, name.push('x'));
            law_insert_then_lookup(text_members(prior), name, JsonView::Str(last.1), name.push('x'));
        } else {
            assert(pairs[pairs.len() - 1].0 != name);
            assert forall|j: int| i < j < prior.len() implies (#[trigger] prior[j]).0 != name by {
                assert(prior[j] == pairs[j]);
            }
            law_members_of_pairs(prior, name, i);
            law_insert_then_lookup(read_members(prior), last.0, read, name);
            law_insert_then_lookup(text_members(prior), last.0, JsonView::Str(last.1), name);
        }
    }
}

// ---------------------------------------------------------------------------
// <parameter name="name">value</parameter>
// ---------------------------------------------------------------------------

pub open spec fn quoted_pairs(pairs: Seq<(Seq<char>, Seq<char>)>) -> bool {
    forall|i: int|
        0 <= i < pairs.len() ==> lacks((#[trigger] pairs[i]).0, '"') && lacks(pairs[i].0, '>')
            && lacks(pairs[i].1, '<')
}

pub open spec fn written_named(
    pairs: Seq<(Seq<char>, Seq<char>)>,
    gap: Seq<char>,
    open: Seq<char>,
    close: Seq<char>,
) -> Seq<char>
    decreases pairs.len(),
{
    if pairs.len() == 0 {
        Seq::empty()
    } else {
        gap + open + " "@ + "name=\""@ + pairs[0].0 + "\""@ + ">"@ + pairs[0].1 + close
            + written_named(pairs.skip(1), gap, open, close)
    }
}

/// Pairs that are written as `<parameter name="name">value</parameter>` are read back, all of
/// them, in order and as they stand.
pub proof fn law_named_parameters_read_back(
    pairs: Seq<(Seq<char>, Seq<char>)>,
    gap: Seq<char>,
    open: Seq<char>,
    close: Seq<char>,
    end: Seq<char>,
)
    requires
        quoted_pairs(pairs),
        lacks(gap, '<'),
        lacks(end, '<'),
        lower(open) == "<parameter"@,
        lower(close) == "</parameter>"@,
    ensures
        named_parameters(written_named(pairs, gap, open, close) + end) == pairs,
    decreases pairs.len(),
{
    reveal_strlit("<parameter");
    reveal_strlit("</parameter>");
    reveal_strlit("name=\"");
    reveal_strlit("\"");
    reveal_strlit(" ");
    reveal_strlit(">");
    let s = written_named(pairs, gap, open, close) + end;
    if pairs.len() == 0 {
        assert(s =~= end);
        lemma_lower_lacks(end, '<');
        law_no_split_fold_without_pattern(end, "<parameter"@);
        assert(named_parameters(s) =~= pairs);
    } else {
        let (name, value) = pairs[0];
        let rest = written_named(pairs.skip(1), gap, open, close) + end;
        let value_text = value + close + rest;
        let after_name = name + "\""@ + (">"@ + value_text);
        let after_tag = " "@ + "name=\""@ + after_name;
        assert(s =~= gap + open + after_tag);
        lemma_split_tag(gap, open, after_tag, '<');
        lemma_lacks_leads(" "@, "name=\""@);
        law_split_at_the_first(" "@, "name=\""@, after_name);
        lemma_lacks_leads(name, "\""@);
        law_split_at_the_first(name, "\""@, ">"@ + value_text);
        let lead = " "@ + "name=\""@ + name + "\""@;
        assert(lacks(lead, '>')) by {
            assert forall|i: int| 0 <= i < lead.len() implies (#[trigger] lead[i]) != '>' by {
                if 7 <= i < 7 + name.len() {
                    assert(lead[i] == name[i - 7]);
                } else if i == 0 {
                    assert(lead[i] == " "@[0]);
                } else if i < 7 {
                    assert(lead[i] == "name=\""@[i - 1]);
                } else {
                    assert(lead[i] == "\""@[0]);
                }
            }
        }
        lemma_lacks_leads(lead, ">"@);
        law_split_at_the_first(lead, ">"@, value_text);
        assert(after_tag =~= lead + ">"@ + value_text);
        lemma_split_tag(value, close, rest, '<');
        assert(parameter_at(after_tag) == Some((name, value, rest)));
        assert forall|i: int| 0 <= i < pairs.skip(1).len() implies lacks(
            (#[trigger] pairs.skip(1)[i]).0,
            '"',
        ) && lacks(pairs.skip(1)[i].0, '>') && lacks(pairs.skip(1)[i].1, '<') by {
            assert(pairs.skip(1)[i] == pairs[i + 1]);
        }
        law_named_parameters_read_back(pairs.skip(1), gap, open, close, end);
        assert(named_parameters(s) == seq![(name, value)] + pairs.skip(1));
        assert(seq![(name, value)] + pairs.skip(1) =~= pairs);
    }
}

// ---------------------------------------------------------------------------
// The blocks of a text
// ---------------------------------------------------------------------------

/// A `<tool_call>` block that asks for a call is taken out of the text, and the blocks behind it
/// are numbered from the next on; one that asks for none stays where it is.
pub proof fn law_tagged_block_is_taken(head: Seq<char>, inner: Seq<char>, rest: Seq<char>, index: nat)
    requires
        leads_to(head, "<tool_call>"@),
        leads_to(inner, "</tool_call>"@),
    ensures
        ({
            let read = tagged_pass(
                head + "<tool_call>"@ + inner + "</tool_call>"@ + rest,
                index,
            );
            match tagged_call(trim(inner), index, json_parsed(trim(inner))) {
                Some(call) => {
                    let next = tagged_pass(rest, index + 1);
                    read.0 == head + next.0 && read.1 == seq![call] + next.1
                },
                None => {
                    let next = tagged_pass(rest, index);
                    read.0 == head + "<tool_call>"@ + inner + "</tool_call>"@ + next.0 && read.1
                        == next.1
                },
            }
        }),
{
    reveal_strlit("<tool_call>");
    reveal_strlit("</tool_call>");
    let s = head + "<tool_call>"@ + inner + "</tool_call>"@ + rest;
    let tail = inner + "</tool_call>"@ + rest;
    assert(s =~= head + "<tool_call>"@ + tail);
    law_split_at_the_first(head, "<tool_call>"@, tail);
    law_split_at_the_first(inner, "</tool_call>"@, rest);
    let next = tagged_pass(rest, index);
    assert(head + ("<tool_call>"@ + inner + "</tool_call>"@) + next.0 =~= head + "<tool_call>"@
        + inner + "</tool_call>"@ + next.0);
}

/// Blocks, each written as `gap` and the text between the tags of a tool call.
pub open spec fn written_blocks(blocks: Seq<Seq<char>>, gap: Seq<char>) -> Seq<char>
    decreases blocks.len(),
{
    if blocks.len() == 0 {
        Seq::empty()
    } else {
        gap + "<tool_call>"@ + blocks[0] + "</tool_call>"@ + written_blocks(blocks.skip(1), gap)
    }
}

pub open spec fn repeated(gap: Seq<char>, n: nat) -> Seq<char>
    decreases n,
{
    if n == 0 {
        Seq::empty()
    } else {
        gap + repeated(gap, (n - 1) as nat)
    }
}

/// Blocks that hold JSON give one call each, in order, with the name and the arguments that each
/// of them has, and what stands between them is left.
pub proof fn law_tagged_calls_read_back(
    blocks: Seq<Seq<char>>,
    values: Seq<JsonView>,
    gap: Seq<char>,
    end: Seq<char>,
    index: nat,
)
    requires
        lacks(gap, '<'),
        lacks(end, '<'),
        blocks.len() == values.len(),
        forall|i: int|
            0 <= i < blocks.len() ==> leads_to(#[trigger] blocks[i], "</tool_call>"@)
                && json_parsed(trim(blocks[i])) == Some(values[i]),
    ensures
        ({
            let read = tagged_pass(written_blocks(blocks, gap) + end, index);
            &&& read.0 == repeated(gap, blocks.len()) + end
            &&& read.1.len() == blocks.len()
            &&& forall|i: int|
                0 <= i < blocks.len() ==> (#[trigger] read.1[i]) == text_call(
                    (index + i) as nat,
                    values[i].str_or("name"@, "unknown"@),
                    or_empty(values[i].get("arguments"@)),
                )
        }),
    decreases blocks.len(),
{
    reveal_strlit("<tool_call>");
    reveal_strlit("</tool_call>");
    let s = written_blocks(blocks, gap) + end;
    if blocks.len() == 0 {
        assert(s =~= end);
        law_no_split_without_pattern(end, "<tool_call>"@);
        assert(repeated(gap, 0) + end =~= end);
    } else {
        let rest = written_blocks(blocks.skip(1), gap) + end;
        let later = values.skip(1);
        assert(s =~= gap + "<tool_call>"@ + blocks[0] + "</tool_call>"@ + rest);
        lemma_lacks_leads(gap, "<tool_call>"@);
        assert(leads_to(blocks[0], "</tool_call>"@));
        law_tagged_block_is_taken(gap, blocks[0], rest, index);
        assert forall|i: int| 0 <= i < blocks.skip(1).len() implies leads_to(
            #[trigger] blocks.skip(1)[i],
            "</tool_call>"@,
        ) && json_parsed(trim(blocks.skip(1)[i])) == Some(later[i]) by {
            assert(blocks.skip(1)[i] == blocks[i + 1]);
        }
        law_tagged_calls_read_back(blocks.skip(1), later, gap, end, index + 1);
        let next = tagged_pass(rest, index + 1);
        let read = tagged_pass(s, index);
        assert(gap + (repeated(gap, (blocks.len() - 1) as nat) + end) =~= repeated(gap, blocks.len())
            + end);
        assert forall|i: int| 0 <= i < blocks.len() implies (#[trigger] read.1[i]) == text_call(
            (index + i) as nat,
            values[i].str_or("name"@, "unknown"@),
            or_empty(values[i].get("arguments"@)),
        ) by {
            if i > 0 {
                assert(read.1[i] == next.1[i - 1]);
                assert(later[i - 1] == values[i]);
            }
        }
    }
}

/// A `[TOOL_CALL]` block, in any case, is taken out of the text whether or not it asks for a call;
/// without an end it runs to the end of the text.
pub proof fn law_bracket_block_is_taken(
    head: Seq<char>,
    open: Seq<char>,
    inner: Seq<char>,
    close: Seq<char>,
    rest: Seq<char>,
    index: nat,
)
    requires
        lacks(head, '['),
        lacks(inner, '['),
        lower(open) == "[tool_call]"@,
        lower(close) == "[/tool_call]"@,
    ensures
        ({
            let read = bracket_pass(head + open + inner + close + rest, index);
            let cut = bracket_pass(head + open + inner, index);
            match bracket_call(trim(inner), index, json_parsed(trim(inner))) {
                Some(call) => {
                    let next = bracket_pass(rest, index + 1);
                    &&& read.0 == head + next.0 && read.1 == seq![call] + next.1
                    &&& cut == (head, seq![call])
                },
                None => {
                    let next = bracket_pass(rest, index);
                    &&& read.0 == head + next.0 && read.1 == next.1
                    &&& cut == (head, Seq::<ToolCallView>::empty())
                },
            }
        }),
{
    reveal_strlit("[tool_call]");
    reveal_strlit("[/tool_call]");
    let tail = inner + close + rest;
    assert(head + open + inner + close + rest =~= head + open + tail);
    lemma_split_tag(head, open, tail, '[');
    lemma_split_tag(inner, close, rest, '[');
    lemma_split_tag(head, open, inner, '[');
    lemma_lower_lacks(inner, '[');
    law_no_split_fold_without_pattern(inner, "[/tool_call]"@);
}

/// `[Called: name]` with named parameters up to `</invoke>` is a call of that name whose arguments
/// are the texts of the parameters; it is taken out of the text.
pub proof fn law_called_block_is_taken(
    head: Seq<char>,
    called: Seq<char>,
    name: Seq<char>,
    params: Seq<char>,
    done: Seq<char>,
    rest: Seq<char>,
    index: nat,
)
    requires
        lacks(head, '['),
        lower(called) == "[called:"@,
        lacks(name, ']'),
        trim(name).len() > 0,
        lower(done) == "</invoke>"@,
        leads_to(lower(params), "</invoke>"@),
        split_fold(params + done + rest, "</minimax:tool_call>"@) is None,
    ensures
        ({
            let read = called_pass(head + called + name + "]"@ + params + done + rest, index);
            let next = called_pass(rest, index + 1);
            let call = text_call(
                index,
                trim(name),
                JsonView::Object(text_members(named_parameters(params))),
            );
            read.0 == head + next.0 && read.1 == seq![call] + next.1
        }),
{
    reveal_strlit("[called:");
    reveal_strlit("</invoke>");
    reveal_strlit("]");
    let after = params + done + rest;
    let tail = name + "]"@ + after;
    assert(head + called + name + "]"@ + params + done + rest =~= head + called + tail);
    lemma_split_tag(head, called, tail, '[');
    lemma_lacks_leads(name, "]"@);
    law_split_at_the_first(name, "]"@, after);
    assert(lower(done).len() == done.len());
    law_split_fold_at_the_first(params, done, rest);
}

/// `<invoke name="name">` with named parameters up to `</invoke>` is a call of that name whose
/// arguments are the parameters, read as JSON where they are; it is taken out of the text.
pub proof fn law_invoke_block_is_taken(
    head: Seq<char>,
    invoke: Seq<char>,
    name: Seq<char>,
    params: Seq<char>,
    done: Seq<char>,
    rest: Seq<char>,
    index: nat,
)
    requires
        lacks(head, '<'),
        lower(invoke) == "<invoke"@,
        lacks(name, '"'),
        trim(name).len() > 0,
        lower(done) == "</invoke>"@,
        leads_to(lower(params), "</invoke>"@),
        !starts_with(lower(trim_start(rest)), "</minimax:tool_call>"@),
    ensures
        ({
            let read = invoke_pass(
                head + invoke + " "@ + "name=\""@ + name + "\""@ + ">"@ + params + done + rest,
                index,
            );
            let next = invoke_pass(rest, index + 1);
            let call = text_call(
                index,
                trim(name),
                JsonView::Object(read_members(named_parameters(params))),
            );
            read.0 == head + next.0 && read.1 == seq![call] + next.1
        }),
{
    reveal_strlit("<invoke");
    reveal_strlit("</invoke>");
    reveal_strlit("name=\"");
    reveal_strlit("\"");
    reveal_strlit(" ");
    reveal_strlit(">");
    let body = params + done + rest;
    let after_name = ">"@ + body;
    let after_attr = name + "\""@ + after_name;
    let tail = " "@ + "name=\""@ + after_attr;
    let s = head + invoke + " "@ + "name=\""@ + name + "\""@ + ">"@ + params + done + rest;
    assert(s =~= head + invoke + tail);
    lemma_split_tag(head, invoke, tail, '<');
    lemma_lacks_leads(" "@, "name=\""@);
    law_split_at_the_first(" "@, "name=\""@, after_attr);
    lemma_lacks_leads(name, "\""@);
    law_split_at_the_first(name, "\""@, after_name);
    law_split_at_the_first(Seq::empty(), ">"@, body);
    assert(Seq::empty() + ">"@ + body =~= after_name);
    assert(lower(done).len() == done.len());
    law_split_fold_at_the_first(params, done, rest);
    assert(invocation_at(tail) == Some((trim(name), params, rest)));
}

/// A text without angle and square brackets asks for no call in any form and is only trimmed.
proof fn lemma_no_blocks(text: Seq<char>, index: nat)
    ensures
        lacks(text, '<') ==> tagged_pass(text, index) == (text, Seq::<ToolCallView>::empty()),
        lacks(text, '<') ==> invoke_pass(text, index) == (text, Seq::<ToolCallView>::empty()),
        lacks(text, '[') ==> bracket_pass(text, index) == (text, Seq::<ToolCallView>::empty()),
        lacks(text, '[') ==> called_pass(text, index) == (text, Seq::<ToolCallView>::empty()),
{
    reveal_strlit("<tool_call>");
    reveal_strlit("<invoke");
    reveal_strlit("[tool_call]");
    reveal_strlit("[called:");
    if lacks(text, '<') {
        law_no_split_without_pattern(text, "<tool_call>"@);
        lemma_lower_lacks(text, '<');
        law_no_split_fold_without_pattern(text, "<invoke"@);
    }
    if lacks(text, '[') {
        lemma_lower_lacks(text, '[');
        law_no_split_fold_without_pattern(text, "[tool_call]"@);
        law_no_split_fold_without_pattern(text, "[called:"@);
    }
}

/// What an answer says in `<tool_call>` blocks of JSON is what it asks for: one call for each
/// block, in order, and the text around them without space at its ends.
pub proof fn law_answer_with_tagged_calls(
    blocks: Seq<Seq<char>>,
    values: Seq<JsonView>,
    gap: Seq<char>,
    end: Seq<char>,
)
    requires
        lacks(gap, '<'),
        lacks(end, '<'),
        blocks.len() > 0,
        blocks.len() == values.len(),
        forall|i: int|
            0 <= i < blocks.len() ==> leads_to(#[trigger] blocks[i], "</tool_call>"@)
                && json_parsed(trim(blocks[i])) == Some(values[i]),
    ensures
        ({
            let read = text_tool_calls(written_blocks(blocks, gap) + end);
            &&& read.0 == trim(repeated(gap, blocks.len()) + end)
            &&& read.1.len() == blocks.len()
            &&& forall|i: int|
                0 <= i < blocks.len() ==> (#[trigger] read.1[i]) == text_call(
                    i as nat,
                    values[i].str_or("name"@, "unknown"@),
                    or_empty(values[i].get("arguments"@)),
                )
        }),
{
    law_tagged_calls_read_back(blocks, values, gap, end, 0);
}

/// What an answer says in one `<tool_call>` block of the function form is the one call that it
/// asks for.
pub proof fn law_answer_with_function_block(
    before: Seq<char>,
    name: Seq<char>,
    pairs: Seq<(Seq<char>, Seq<char>)>,
    gap: Seq<char>,
    function: Seq<char>,
    open: Seq<char>,
    close: Seq<char>,
    done: Seq<char>,
    end: Seq<char>,
)
    requires
        lacks(before, '<'),
        lacks(end, '<'),
        lacks(gap, '<'),
        plain_word(name),
        plain_pairs(pairs),
        lower(function) == "<function="@,
        lower(open) == "<parameter="@,
        lower(close) == "</parameter>"@,
        lower(done) == "</function>"@,
        ({
            let block = function + name + ">"@ + written_parameters(pairs, gap, open, close) + done;
            leads_to(block, "</tool_call>"@) && json_parsed(block) is None
        }),
    ensures
        ({
            let block = function + name + ">"@ + written_parameters(pairs, gap, open, close) + done;
            text_tool_calls(before + "<tool_call>"@ + block + "</tool_call>"@ + end) == (
                trim(before + end),
                seq![text_call(0, name, JsonView::Object(read_members(pairs)))],
            )
        }),
{
    reveal_strlit("<function=");
    reveal_strlit("</function>");
    reveal_strlit("<tool_call>");
    let block = function + name + ">"@ + written_parameters(pairs, gap, open, close) + done;
    assert(lower(function).len() == function.len() && lower(done).len() == done.len());
    assert(lower(function)[0] == '<');
    assert(lower(done)[10] == '>');
    assert(function[0] == '<' && done[10] == '>' && done.last() == '>');
    assert(block[0] == function[0]);
    assert(block.last() == done.last());
    lemma_trim_tight(block);
    law_function_block_reads_back(name, pairs, gap, function, open, close, done);
    lemma_lacks_leads(before, "<tool_call>"@);
    law_tagged_block_is_taken(before, block, end, 0);
    lemma_no_blocks(end, 1);
    let call = text_call(0, name, JsonView::Object(read_members(pairs)));
    assert(seq![call] + Seq::<ToolCallView>::empty() =~= seq![call]);
}

/// What an answer without angle brackets says in a `[TOOL_CALL]` block is the one call that it
/// asks for.
pub proof fn law_answer_with_bracket_block(
    before: Seq<char>,
    open: Seq<char>,
    inner: Seq<char>,
    close: Seq<char>,
    end: Seq<char>,
)
    requires
        lacks(before, '['),
        lacks(inner, '['),
        lacks(end, '['),
        lacks(before + open + inner + close + end, '<'),
        lower(open) == "[tool_call]"@,
        lower(close) == "[/tool_call]"@,
        bracket_call(trim(inner), 0, json_parsed(trim(inner))) is Some,
    ensures
        text_tool_calls(before + open + inner + close + end) == (
            trim(before + end),
            seq![bracket_call(trim(inner), 0, json_parsed(trim(inner)))->0],
        ),
{
    lemma_no_blocks(before + open + inner + close + end, 0);
    law_bracket_block_is_taken(before, open, inner, close, end, 0);
    lemma_no_blocks(end, 1);
    let call = bracket_call(trim(inner), 0, json_parsed(trim(inner)))->0;
    assert(seq![call] + Seq::<ToolCallView>::empty() =~= seq![call]);
}

// ---------------------------------------------------------------------------
// key => value
// ---------------------------------------------------------------------------

/// The text in quotes behind an arrow is the value, as it stands.
pub proof fn law_quoted_arrow_value(
    head: Seq<char>,
    key: Seq<char>,
    pad: Seq<char>,
    value: Seq<char>,
    tail: Seq<char>,
)
    requires
        leads_to(head, key + " =>"@),
        spaces(pad),
        lacks(value, '"'),
    ensures
        arrow_value(head + (key + " =>"@) + (pad + "\""@ + value + "\""@ + tail), key) == Some(
            value,
        ),
{
    reveal_strlit(" =>");
    reveal_strlit("\"");
    let operand = pad + "\""@ + value + "\""@ + tail;
    law_split_at_the_first(head, key + " =>"@, operand);
    let (m, b) = lemma_tail_space("\""@ + value + "\""@, tail);
    assert("\""@[0] == '"');
    let shown = "\""@ + value + "\""@ + m;
    assert(operand =~= pad + shown + b);
    law_trim(pad, shown, b);
    let rest = value + "\""@ + m;
    assert(shown =~= "\""@ + rest);
    law_prefix_is_stripped(shown, "\""@, rest);
    lemma_lacks_leads(value, "\""@);
    law_split_at_the_first(value, "\""@, m);
}

/// A text behind a tight one, cut into what belongs to it and the space at its end.
proof fn lemma_tail_space(m: Seq<char>, tail: Seq<char>) -> (r: (Seq<char>, Seq<char>))
    requires
        m.len() > 0,
        !is_space(m.last()),
        !is_space(m[0]),
    ensures
        tail == r.0 + r.1,
        spaces(r.1),
        tight(m + r.0),
    decreases tail.len(),
{
    if tail.len() == 0 {
        assert(m + tail =~= m);
        assert(tail =~= Seq::<char>::empty() + Seq::<char>::empty());
        assert(m + Seq::<char>::empty() =~= m);
        (Seq::empty(), Seq::empty())
    } else if is_space(tail.last()) {
        let (a, b) = lemma_tail_space(m, tail.drop_last());
        assert(tail =~= tail.drop_last().push(tail.last()));
        assert((a + b).push(tail.last()) =~= a + b.push(tail.last()));
        (a, b.push(tail.last()))
    } else {
        assert(tail =~= tail + Seq::<char>::empty());
        assert((m + tail).last() == tail.last());
        (tail, Seq::empty())
    }
}

proof fn lemma_arrow_word(word: Seq<char>, rest: Seq<char>)
    requires
        forall|i: int|
            0 <= i < word.len() ==> !is_space(#[trigger] word[i]) && word[i] != ',' && word[i]
                != '}',
        rest.len() > 0 ==> is_space(rest[0]) || rest[0] == ',' || rest[0] == '}',
    ensures
        arrow_word_len(word + rest) == word.len(),
    decreases word.len(),
{
    if word.len() == 0 {
        assert(word + rest =~= rest);
    } else {
        assert((word + rest)[0] == word[0]);
        assert((word + rest).skip(1) =~= word.skip(1) + rest);
        lemma_arrow_word(word.skip(1), rest);
    }
}

/// A word behind an arrow, without quotes, is the value up to a comma, a brace or space.
pub proof fn law_bare_arrow_value(word: Seq<char>, rest: Seq<char>)
    requires
        word.len() > 0,
        forall|i: int|
            0 <= i < word.len() ==> !is_space(#[trigger] word[i]) && word[i] != ',' && word[i]
                != '}' && word[i] != '"',
        rest.len() > 0 ==> rest[0] == ',' || rest[0] == '}',
        tight(word + rest),
    ensures
        arrow_operand(word + rest) == Some(word),
{
    reveal_strlit("\"");
    let s = word + rest;
    lemma_trim_tight(s);
    assert(s[0] == word[0]);
    if strip_prefix(s, "\""@) is Some {
        law_prefix_is_stripped(s, "\""@, strip_prefix(s, "\""@)->0);
        assert(s[0] == "\""@[0]);
    }
    lemma_arrow_word(word, rest);
    assert(s.take(word.len() as int) =~= word);
    assert(trim_start_of(word, '"') == word);
    assert(trim_end_of(word, '"') == word);
}

// ---------------------------------------------------------------------------
// { .. }
// ---------------------------------------------------------------------------

/// How many braces a text opens without closing them.
pub open spec fn level(s: Seq<char>) -> int
    decreases s.len(),
{
    if s.len() == 0 {
        0
    } else {
        level(s.drop_last()) + (if s.last() == '{' {
            1int
        } else if s.last() == '}' {
            -1int
        } else {
            0int
        })
    }
}

/// A text that closes each brace it opens and no other.
pub open spec fn balanced(s: Seq<char>) -> bool {
    level(s) == 0 && forall|k: int| 0 <= k <= s.len() ==> level(#[trigger] s.take(k)) >= 0
}

proof fn lemma_closing(inner: Seq<char>, rest: Seq<char>, k: int)
    requires
        balanced(inner),
        0 <= k <= inner.len(),
    ensures
        closing_brace(
            seq!['{'] + inner + seq!['}'] + rest,
            k + 1,
            1 + level(inner.take(k)),
        ) == Some((inner.len() + 1) as int),
    decreases inner.len() - k,
{
    let s = seq!['{'] + inner + seq!['}'] + rest;
    if k == inner.len() {
        assert(inner.take(k) =~= inner);
        assert(s[k + 1] == '}');
    } else {
        assert(s[k + 1] == inner[k]);
        let next = inner.take(k + 1);
        assert(next.drop_last() =~= inner.take(k));
        assert(next.last() == inner[k]);
        assert(level(next) >= 0);
        lemma_closing(inner, rest, k + 1);
    }
}

/// What stands in braces, with whatever braces it opens and closes itself, is read up to the brace
/// that closes the first one.
pub proof fn law_braces_are_matched(inner: Seq<char>, rest: Seq<char>)
    requires
        balanced(inner),
    ensures
        braced(seq!['{'] + inner + seq!['}'] + rest) == Some(trim(inner)),
{
    let s = seq!['{'] + inner + seq!['}'] + rest;
    lemma_closing(inner, rest, 0);
    assert(inner.take(0) =~= Seq::empty());
    assert(s[0] == '{');
    assert(closing_brace(s, 0, 0) == closing_brace(s, 1, 1));
    assert(s.subrange(1, (inner.len() + 1) as int) =~= inner);
}

// ---------------------------------------------------------------------------
// --key value
// ---------------------------------------------------------------------------

/// Each `--key` opens an option, and the words up to the next key are its words.
pub proof fn law_options_read_back(
    before: Seq<Seq<char>>,
    key: Seq<char>,
    values: Seq<Seq<char>>,
)
    requires
        forall|i: int|
            0 <= i < values.len() ==> strip_prefix(#[trigger] values[i], "--"@) is None,
    ensures
        options(before + seq!["--"@ + key] + values) == options(before).push((key, values)),
    decreases values.len(),
{
    let tokens = before + seq!["--"@ + key] + values;
    if values.len() == 0 {
        assert(tokens.drop_last() =~= before);
        law_prefix_is_stripped("--"@ + key, "--"@, key);
        assert(tokens.last() == "--"@ + key);
        assert(values =~= Seq::empty());
        assert(options(tokens) =~= options(before).push((key, values)));
    } else {
        let fewer = values.drop_last();
        assert(tokens.drop_last() =~= before + seq!["--"@ + key] + fewer);
        assert(tokens.last() == values[values.len() - 1]);
        law_options_read_back(before, key, fewer);
        assert(fewer.push(values.last()) =~= values);
        assert(options(tokens) =~= options(before).push((key, values)));
    }
}

/// An option without words is a flag that is set; a whole number is read as that number.
pub proof fn law_option_values(n: int, reading: Option<Option<Seq<char>>>)
    requires
        -0x8000_0000_0000_0000 <= n < 0x8000_0000_0000_0000,
    ensures
        option_value(Seq::empty(), reading) == JsonView::Bool(true),
        option_value(decimal_int(n), reading) == JsonView::Number(decimal_int(n)),
{
    crate::text_laws::law_integer_reads_back(n);
    if decimal_int(n).len() == 0 {
        assert(decimal_int(n) =~= Seq::empty());
        assert(integer(Seq::empty()) is None);
    }
}

// ---------------------------------------------------------------------------
// Calls in brackets
// ---------------------------------------------------------------------------

/// A bracket block of JSON asks for the tool under `name` or else `tool`, with what stands under
/// `arguments` or else `args`.
pub proof fn law_bracket_json_call(
    block: Seq<char>,
    index: nat,
    value: JsonView,
    name: Seq<char>,
    arguments: JsonView,
)
    ensures
        ({
            let call = bracket_call(block, index, Some(value));
            &&& call is Some
            &&& value.str_at("name"@) == Some(name) ==> call->0.name == name
            &&& value.get("name"@) is None && value.str_at("tool"@) == Some(name) ==> call->0.name
                == name
            &&& value.get("arguments"@) == Some(arguments) ==> call->0.arguments == arguments
            &&& value.get("arguments"@) is None && value.get("args"@) == Some(arguments)
                ==> call->0.arguments == arguments
        }),
{
}

/// The arguments behind an arrow, in braces, are those that the text in the braces makes: as JSON
/// where it is JSON, and else as options.
pub proof fn law_braced_arrow_arguments(
    head: Seq<char>,
    pad: Seq<char>,
    inner: Seq<char>,
    tail: Seq<char>,
)
    requires
        leads_to(head, "args =>"@),
        spaces(pad),
        balanced(inner),
    ensures
        ({
            let text = head + "args =>"@ + (pad + (seq!['{'] + inner + seq!['}']) + tail);
            match json_parsed("{"@ + trim(inner) + "}"@) {
                Some(value) => arrow_arguments(text) == value,
                None => arrow_arguments(text) == dash_args(trim(inner)),
            }
        }),
{
    reveal_strlit("args =>");
    let shown = seq!['{'] + inner + seq!['}'];
    let operand = pad + shown + tail;
    law_split_at_the_first(head, "args =>"@, operand);
    assert(shown[0] == '{' && shown.last() == '}');
    let (m, b) = lemma_tail_space(shown, tail);
    assert(operand =~= pad + (shown + m) + b);
    law_trim(pad, shown + m, b);
    law_braces_are_matched(inner, m);
    assert(shown + m =~= seq!['{'] + inner + seq!['}'] + m);
}

/// Of the options of a call, each key has the value of its last option; other keys have none.
pub proof fn law_members_of_options(
    list: Seq<(Seq<char>, Seq<Seq<char>>)>,
    key: Seq<char>,
    i: int,
)
    requires
        -1 <= i < list.len(),
        i >= 0 ==> list[i].0 == key,
        forall|j: int| i < j < list.len() ==> (#[trigger] list[j]).0 != key,
    ensures
        i < 0 ==> lookup(option_members(list), key) is None,
        i >= 0 ==> lookup(option_members(list), key) == Some(
            option_value(option_text(list[i].1), float_reading(option_text(list[i].1))),
        ),
    decreases list.len(),
{
    if list.len() > 0 {
        let last = list.last();
        let prior = list.drop_last();
        let text = option_text(last.1);
        let value = option_value(text, float_reading(text));
        assert(key.push('x').len() != key.len());
        if i == list.len() - 1 {
            law_insert_then_lookup(option_members(prior), key, value, key.push('x'));
        } else {
            assert(list[list.len() - 1].0 != key);
            assert forall|j: int| i < j < prior.len() implies (#[trigger] prior[j]).0 != key by {
                assert(prior[j] == list[j]);
            }
            law_members_of_options(prior, key, i);
            law_insert_then_lookup(option_members(prior), last.0, value, key);
        }
    }
}

/// A word of an option is its text.
pub proof fn law_option_text(word: Seq<char>)
    requires
        word.len() > 0,
        tight(word),
        lacks(word, '"'),
    ensures
        option_text(seq![word]) == word,
        option_text(Seq::empty()).len() == 0,
{
    assert(join(seq![word], " "@) == word);
    lemma_trim_tight(word);
    assert(trim_start_of(word, '"') == word);
    assert(trim_end_of(word, '"') == word);
    lemma_trim_tight(Seq::empty());
    assert(join(Seq::<Seq<char>>::empty(), " "@) =~= Seq::empty());
    assert(trim_start_of(Seq::empty(), '"') =~= Seq::empty());
    assert(trim_end_of(Seq::empty(), '"') =~= Seq::empty());
}

// ---------------------------------------------------------------------------
// Further forms
// ---------------------------------------------------------------------------

/// `[Called: name]` with named parameters may also end with `</minimax:tool_call>`; without an end
/// the parameters run to the end of the text.
pub proof fn law_called_block_ends(
    head: Seq<char>,
    called: Seq<char>,
    name: Seq<char>,
    params: Seq<char>,
    done: Seq<char>,
    rest: Seq<char>,
    index: nat,
)
    requires
        lacks(head, '['),
        lower(called) == "[called:"@,
        lacks(name, ']'),
        trim(name).len() > 0,
        lower(done) == "</minimax:tool_call>"@,
        leads_to(lower(params), "</minimax:tool_call>"@),
    ensures
        ({
            let call = text_call(
                index,
                trim(name),
                JsonView::Object(text_members(named_parameters(params))),
            );
            let read = called_pass(head + called + name + "]"@ + params + done + rest, index);
            let next = called_pass(rest, index + 1);
            read.0 == head + next.0 && read.1 == seq![call] + next.1
        }),
        lacks(params, '<') ==> called_pass(head + called + name + "]"@ + params, index) == (
            head,
            seq![text_call(index, trim(name), JsonView::Object(Seq::empty()))],
        ),
{
    reveal_strlit("[called:");
    reveal_strlit("</minimax:tool_call>");
    reveal_strlit("</invoke>");
    reveal_strlit("<parameter");
    reveal_strlit("]");
    let after = params + done + rest;
    let tail = name + "]"@ + after;
    assert(head + called + name + "]"@ + params + done + rest =~= head + called + tail);
    lemma_split_tag(head, called, tail, '[');
    lemma_lacks_leads(name, "]"@);
    law_split_at_the_first(name, "]"@, after);
    assert(lower(done).len() == done.len());
    law_split_fold_at_the_first(params, done, rest);
    if lacks(params, '<') {
        let short = name + "]"@ + params;
        assert(head + called + name + "]"@ + params =~= head + called + short);
        lemma_split_tag(head, called, short, '[');
        law_split_at_the_first(name, "]"@, params);
        lemma_lower_lacks(params, '<');
        law_no_split_fold_without_pattern(params, "</minimax:tool_call>"@);
        law_no_split_fold_without_pattern(params, "</invoke>"@);
        law_no_split_fold_without_pattern(params, "<parameter"@);
        lemma_no_blocks(Seq::empty(), index + 1);
        let call = text_call(index, trim(name), JsonView::Object(Seq::empty()));
        assert(seq![call] + Seq::<ToolCallView>::empty() =~= seq![call]);
        assert(head + Seq::<char>::empty() =~= head);
        assert(text_members(named_parameters(params)) =~= Seq::empty());
    }
}

/// The closing `</minimax:tool_call>` behind an invocation belongs to it and is taken out with it.
pub proof fn law_invoke_in_a_frame(
    head: Seq<char>,
    invoke: Seq<char>,
    name: Seq<char>,
    params: Seq<char>,
    done: Seq<char>,
    pad: Seq<char>,
    frame: Seq<char>,
    rest: Seq<char>,
    index: nat,
)
    requires
        lacks(head, '<'),
        lower(invoke) == "<invoke"@,
        lacks(name, '"'),
        trim(name).len() > 0,
        lower(done) == "</invoke>"@,
        leads_to(lower(params), "</invoke>"@),
        spaces(pad),
        lower(frame) == "</minimax:tool_call>"@,
    ensures
        ({
            let read = invoke_pass(
                head + invoke + " "@ + "name=\""@ + name + "\""@ + ">"@ + params + done + (pad
                    + frame + rest),
                index,
            );
            let next = invoke_pass(rest, index + 1);
            let call = text_call(
                index,
                trim(name),
                JsonView::Object(read_members(named_parameters(params))),
            );
            read.0 == head + next.0 && read.1 == seq![call] + next.1
        }),
{
    reveal_strlit("<invoke");
    reveal_strlit("</invoke>");
    reveal_strlit("</minimax:tool_call>");
    reveal_strlit("name=\"");
    reveal_strlit("\"");
    reveal_strlit(" ");
    reveal_strlit(">");
    let behind = pad + frame + rest;
    let body = params + done + behind;
    let after_name = ">"@ + body;
    let after_attr = name + "\""@ + after_name;
    let tail = " "@ + "name=\""@ + after_attr;
    let s = head + invoke + " "@ + "name=\""@ + name + "\""@ + ">"@ + params + done + behind;
    assert(s =~= head + invoke + tail);
    lemma_split_tag(head, invoke, tail, '<');
    lemma_lacks_leads(" "@, "name=\""@);
    law_split_at_the_first(" "@, "name=\""@, after_attr);
    lemma_lacks_leads(name, "\""@);
    law_split_at_the_first(name, "\""@, after_name);
    law_split_at_the_first(Seq::empty(), ">"@, body);
    assert(Seq::empty() + ">"@ + body =~= after_name);
    assert(lower(done).len() == done.len());
    law_split_fold_at_the_first(params, done, behind);
    let shown = frame + rest;
    assert(lower(frame).len() == frame.len());
    assert(lower(frame)[0] == '<');
    assert(frame[0] == '<');
    assert(shown[0] == '<');
    lemma_trim_start_spaces(pad, shown);
    assert(behind =~= pad + shown);
    lemma_lower_sum(frame, rest);
    assert(lower(shown).subrange(0, "</minimax:tool_call>"@.len() as int)
        =~= "</minimax:tool_call>"@);
    assert(shown.skip("</minimax:tool_call>"@.len() as int) =~= rest);
    assert(invocation_at(tail) == Some((trim(name), params, rest)));
}

/// The forms of calls are looked for one after the other: calls in tags, then in brackets, then
/// those that were called, then those that are invoked; the first form that gives any gives them
/// all.
pub proof fn law_forms_in_turn(content: Seq<char>)
    requires
        split(content, "<tool_call>"@) is None,
    ensures
        bracket_pass(content, 0).1.len() > 0 ==> text_tool_calls(content) == (
            trim(bracket_pass(content, 0).0),
            bracket_pass(content, 0).1,
        ),
        split_fold(content, "[tool_call]"@) is None && called_pass(content, 0).1.len() > 0
            ==> text_tool_calls(content) == (
            trim(called_pass(content, 0).0),
            called_pass(content, 0).1,
        ),
        split_fold(content, "[tool_call]"@) is None && split_fold(content, "[called:"@) is None
            ==> text_tool_calls(content) == (
            trim(invoke_pass(content, 0).0),
            invoke_pass(content, 0).1,
        ),
{
}

/// A bracket block of arrows, in braces, asks for the tool behind `tool =>` or else `name =>`, with
/// the arguments that follow.
pub proof fn law_bracket_arrow_call(inner: Seq<char>, index: nat, name: Seq<char>)
    ensures
        ({
            let block = seq!['{'] + inner + seq!['}'];
            let text = trim(inner);
            &&& arrow_value(text, "tool"@) == Some(name) ==> bracket_call(block, index, None)
                == Some(text_call(index, name, arrow_arguments(text)))
            &&& arrow_value(text, "tool"@) is None && arrow_value(text, "name"@) == Some(name)
                ==> bracket_call(block, index, None) == Some(
                text_call(index, name, arrow_arguments(text)),
            )
            &&& arrow_value(text, "tool"@) is None && arrow_value(text, "name"@) is None
                ==> bracket_call(block, index, None) is None
        }),
{
    let block = seq!['{'] + inner + seq!['}'];
    assert(block[0] == '{' && block.last() == '}');
    lemma_trim_tight(block);
    assert(block.subrange(1, block.len() - 1) =~= inner);
}

/// An arrow may be written with an escaped angle bracket.
pub proof fn law_escaped_arrow(head: Seq<char>, key: Seq<char>, tail: Seq<char>)
    requires
        leads_to(head, key + " =\\u003e"@),
        split(head + (key + " =\\u003e"@) + tail, key + " =>"@) is None,
    ensures
        arrow_value(head + (key + " =\\u003e"@) + tail, key) == arrow_operand(tail),
{
    reveal_strlit(" =\\u003e");
    law_split_at_the_first(head, key + " =\\u003e"@, tail);
}

} // verus!
