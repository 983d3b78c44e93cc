//! What tools and models answer: cleaned up, condensed and classified.

use crate::json::{json_parsed, parse};
use crate::text::{
    after, before, chars_of, chars_start_with, contains, decimal, decimal_text, find, has_text,
    lemma_find_from, lemma_split, lower, lower_chars, occurs_at, opt_text, split, split_chars,
    split_fold, split_fold_chars, starts_with, text_of, texts_view, trim, trim_chars,
};
use crate::types::json_opt;
use crate::value::{group_json_view, items_view, Json, JsonView};
use vstd::prelude::*;

verus! {

broadcast use group_json_view;

// ---------------------------------------------------------------------------
// Answers of models
// ---------------------------------------------------------------------------

/// A text without its `[TOOL_CALL]` blocks, and without all that follows one that has no end.
pub open spec fn without_brackets(s: Seq<char>) -> Seq<char>
    decreases s.len(),
{
    match split_fold(s, "[tool_call]"@) {
        None => s,
        Some((head, tail)) => match split_fold(tail, "[/tool_call]"@) {
            None => head,
            Some((_, next)) => {
                proof {
                    reveal_strlit("[tool_call]");
                    lemma_split(s, "[tool_call]"@);
                    lemma_split(tail, "[/tool_call]"@);
                }
                without_brackets(head + next)
            },
        },
    }
}

/// A text without its fenced `tool_call` blocks, and without all that follows one that has no
/// end.
pub open spec fn without_fences(s: Seq<char>) -> Seq<char>
    decreases s.len(),
{
    match split(s, "```tool_call"@) {
        None => s,
        Some((head, tail)) => match split(tail, "```"@) {
            None => head,
            Some((_, next)) => {
                proof {
                    reveal_strlit("```tool_call");
                    lemma_split(s, "```tool_call"@);
                    lemma_split(tail, "```"@);
                }
                without_fences(head + next)
            },
        },
    }
}

pub open spec fn without_fake_calls(text: Seq<char>) -> Seq<char> {
    trim(without_fences(without_brackets(text)))
}

fn concat_chars(a: &[char], b: &[char]) -> (r: Vec<char>)
    ensures
        r@ == a@ + b@,
{
    let mut r: Vec<char> = Vec::new();
    r.extend_from_slice(a);
    assert(r@ =~= a@);
    r.extend_from_slice(b);
    assert(r@ =~= a@ + b@);
    r
}

/// An answer without tool calls that a model wrote as plain text.
pub fn strip_fake_tool_calls(text: &str) -> (r: String)
    ensures
        r@ == without_fake_calls(text@),
{
    let mut result = chars_of(text);
    loop
        invariant_except_break
            without_brackets(result@) == without_brackets(text@),
        ensures
            result@ == without_brackets(text@),
        decreases result@.len(),
    {
        proof {
            reveal_strlit("[tool_call]");
            lemma_split(result@, "[tool_call]"@);
        }
        let next = match split_fold_chars(result.as_slice(), "[tool_call]") {
            None => None,
            Some((head, tail)) => {
                proof {
                    lemma_split(tail@, "[/tool_call]"@);
                }
                match split_fold_chars(tail, "[/tool_call]") {
                    Some((_, next)) => Some((concat_chars(head, next), true)),
                    None => Some((concat_chars(head, before(tail, 0)), false)),
                }
            },
        };
        match next {
            None => {
                break ;
            },
            Some((shorter, more)) => {
                proof {
                    let (head, tail) = split_fold(result@, "[tool_call]"@)->0;
                    assert(head + tail.take(0) =~= head);
                }
                result = shorter;
                if !more {
                    break ;
                }
            },
        }
    }
    let ghost middle = result@;
    loop
        invariant_except_break
            without_fences(result@) == without_fences(middle),
        ensures
            result@ == without_fences(middle),
        decreases result@.len(),
    {
        proof {
            reveal_strlit("```tool_call");
            lemma_split(result@, "```tool_call"@);
        }
        let next = match split_chars(result.as_slice(), "```tool_call") {
            None => None,
            Some((head, tail)) => {
                proof {
                    lemma_split(tail@, "```"@);
                }
                match split_chars(tail, "```") {
                    Some((_, next)) => Some((concat_chars(head, next), true)),
                    None => Some((concat_chars(head, before(tail, 0)), false)),
                }
            },
        };
        match next {
            None => {
                break ;
            },
            Some((shorter, more)) => {
                proof {
                    let (head, tail) = split(result@, "```tool_call"@)->0;
                    assert(head + tail.take(0) =~= head);
                }
                result = shorter;
                if !more {
                    break ;
                }
            },
        }
    }
    text_of(trim_chars(result.as_slice()))
}

/// What stands before the first place of a pattern does not hold the pattern.
proof fn lemma_before_first(s: Seq<char>, pat: Seq<char>)
    requires
        pat.len() > 0,
        find(s, pat) is Some,
    ensures
        find(s.take(find(s, pat)->0), pat) is None,
{
    let i = find(s, pat)->0;
    lemma_find_from(s, pat, 0);
    let head = s.take(i);
    lemma_find_from(head, pat, 0);
    if find(head, pat) is Some {
        let k = find(head, pat)->0;
        assert(head.subrange(k, k + pat.len()) =~= s.subrange(k, k + pat.len()));
        assert(occurs_at(s, pat, k));
    }
}

proof fn lemma_no_brackets(s: Seq<char>)
    ensures
        !contains(lower(without_brackets(s)), "[tool_call]"@),
    decreases s.len(),
{
    reveal_strlit("[tool_call]");
    lemma_split(s, "[tool_call]"@);
    match split_fold(s, "[tool_call]"@) {
        None => {},
        Some((head, tail)) => {
            lemma_split(tail, "[/tool_call]"@);
            match split_fold(tail, "[/tool_call]"@) {
                None => {
                    lemma_before_first(lower(s), "[tool_call]"@);
                    lemma_find_from(lower(s), "[tool_call]"@, 0);
                    let i = find(lower(s), "[tool_call]"@)->0;
                    assert(lower(head) =~= lower(s).take(i));
                },
                Some((_, next)) => lemma_no_brackets(head + next),
            }
        },
    }
}

proof fn lemma_no_fences(s: Seq<char>)
    ensures
        !contains(without_fences(s), "```tool_call"@),
    decreases s.len(),
{
    reveal_strlit("```tool_call");
    lemma_split(s, "```tool_call"@);
    match split(s, "```tool_call"@) {
        None => {},
        Some((head, tail)) => {
            lemma_split(tail, "```"@);
            match split(tail, "```"@) {
                None => lemma_before_first(s, "```tool_call"@),
                Some((_, next)) => lemma_no_fences(head + next),
            }
        },
    }
}

/// A pattern that stands in a part of a text stands in the text.
proof fn lemma_find_in_part(s: Seq<char>, pat: Seq<char>, from: int, to: int)
    requires
        0 <= from <= to <= s.len(),
        contains(s.subrange(from, to), pat),
    ensures
        contains(s, pat),
{
    let part = s.subrange(from, to);
    lemma_find_from(part, pat, 0);
    lemma_find_from(s, pat, 0);
    let k = find(part, pat)->0;
    assert(part.subrange(k, k + pat.len()) =~= s.subrange(from + k, from + k + pat.len()));
    assert(occurs_at(s, pat, from + k));
}

proof fn lemma_trim_is_part(s: Seq<char>)
    ensures
        exists|from: int, to: int|
            0 <= from <= to <= s.len() && trim(s) == #[trigger] s.subrange(from, to),
{
    lemma_trim_start_is_part(s);
    let from = choose|from: int|
        0 <= from <= s.len() && crate::text::trim_start(s) == #[trigger] s.skip(from);
    let t = s.skip(from);
    lemma_trim_end_is_part(t);
    let to = choose|to: int| 0 <= to <= t.len() && crate::text::trim_end(t) == #[trigger] t.take(
        to,
    );
    assert(t.take(to) =~= s.subrange(from, from + to));
}

proof fn lemma_trim_start_is_part(s: Seq<char>)
    ensures
        exists|from: int|
            0 <= from <= s.len() && crate::text::trim_start(s) == #[trigger] s.skip(from),
    decreases s.len(),
{
    if s.len() > 0 && crate::text::is_space(s[0]) {
        lemma_trim_start_is_part(s.skip(1));
        let from = choose|from: int|
            0 <= from <= s.skip(1).len() && crate::text::trim_start(s.skip(1))
                == #[trigger] s.skip(1).skip(from);
        assert(s.skip(1).skip(from) =~= s.skip(from + 1));
    } else {
        assert(s.skip(0) =~= s);
    }
}

proof fn lemma_trim_end_is_part(s: Seq<char>)
    ensures
        exists|to: int|
            0 <= to <= s.len() && crate::text::trim_end(s) == #[trigger] s.take(to),
    decreases s.len(),
{
    if s.len() > 0 && crate::text::is_space(s.last()) {
        lemma_trim_end_is_part(s.drop_last());
        let to = choose|to: int|
            0 <= to <= s.drop_last().len() && crate::text::trim_end(s.drop_last())
                == #[trigger] s.drop_last().take(to);
        assert(s.drop_last().take(to) =~= s.take(to));
    } else {
        assert(s.take(s.len() as int) =~= s);
    }
}

/// What is left of an answer opens no fenced call; where the answer opened none from the start,
/// it opens no bracketed call either.
pub proof fn law_no_fake_calls_left(text: Seq<char>)
    ensures
        !contains(without_fake_calls(text), "```tool_call"@),
        !contains(without_brackets(text), "```tool_call"@) ==> !contains(
            lower(without_fake_calls(text)),
            "[tool_call]"@,
        ),
{
    let middle = without_brackets(text);
    let plain = without_fences(middle);
    lemma_no_brackets(text);
    lemma_no_fences(middle);
    lemma_trim_is_part(plain);
    let (from, to) = choose|from: int, to: int|
        0 <= from <= to <= plain.len() && trim(plain) == #[trigger] plain.subrange(from, to);
    if contains(trim(plain), "```tool_call"@) {
        lemma_find_in_part(plain, "```tool_call"@, from, to);
    }
    if !contains(middle, "```tool_call"@) {
        assert(plain == middle);
        if contains(lower(trim(plain)), "[tool_call]"@) {
            assert(lower(plain).subrange(from, to) =~= lower(plain.subrange(from, to)));
            lemma_find_in_part(lower(plain), "[tool_call]"@, from, to);
        }
    }
}

pub open spec fn tool_trace(text: Seq<char>) -> bool {
    let t = trim(text);
    ||| contains(t, "[Called:"@)
    ||| contains(t, "<tool_call"@)
    ||| contains(t, "[TOOL_CALL]"@)
    ||| contains(t, "[/TOOL_CALL]"@)
}

/// Whether a text holds traces of tool calls.
pub fn is_tool_trace_content(text: &str) -> (r: bool)
    ensures
        r == tool_trace(text@),
{
    let chars = chars_of(text);
    let t = text_of(trim_chars(chars.as_slice()));
    has_text(t.as_str(), "[Called:") || has_text(t.as_str(), "<tool_call") || has_text(
        t.as_str(),
        "[TOOL_CALL]",
    ) || has_text(t.as_str(), "[/TOOL_CALL]")
}

// ---------------------------------------------------------------------------
// Answers of tools
// ---------------------------------------------------------------------------

pub open spec fn error_prefix(result: Seq<char>) -> bool {
    ||| starts_with(result, "Tool error:"@)
    ||| starts_with(result, "Error:"@)
    ||| starts_with(result, "Validation error:"@)
    ||| starts_with(result, "Config error:"@)
    ||| starts_with(result, "Permission denied:"@)
}

/// A result reports an error, once it was read as JSON with result `parsed`: by how it starts, by
/// a member `error`, or by a status of that name.
pub open spec fn reports_error(result: Seq<char>, parsed: Option<JsonView>) -> bool {
    error_prefix(result) || match parsed {
        Some(value) => value.get("error"@) is Some || value.str_at("status"@) == Some("error"@),
        None => false,
    }
}

fn starts_text(text: &[char], pat: &str) -> (r: bool)
    ensures
        r == starts_with(text@, pat@),
{
    let p = chars_of(pat);
    chars_start_with(text, p.as_slice())
}

/// Whether a result reports an error, given what it was read as.
pub fn result_reports_error(result: &str, parsed: Option<Json>) -> (r: bool)
    ensures
        r == reports_error(result@, json_opt(parsed)),
{
    let chars = chars_of(result);
    let s = chars.as_slice();
    if starts_text(s, "Tool error:") || starts_text(s, "Error:") || starts_text(
        s,
        "Validation error:",
    ) || starts_text(s, "Config error:") || starts_text(s, "Permission denied:") {
        return true;
    }
    match parsed {
        Some(value) => {
            if value.get("error").is_some() {
                return true;
            }
            match value.str_at("status") {
                Some(status) => crate::text::same_text(status, "error"),
                None => false,
            }
        },
        None => false,
    }
}

/// Whether the result of a tool reports an error.
pub fn tool_result_indicates_error(result: &str) -> (r: bool)
    ensures
        r == reports_error(result@, json_parsed(result@)),
{
    let parsed = parse(result);
    result_reports_error(result, parsed)
}

/// The result complains about how the tool was called.
pub open spec fn wrong_call(result: Seq<char>) -> bool {
    let t = lower(result);
    ||| contains(t, "unknown tool:"@)
    ||| contains(t, "validation error:"@)
    ||| contains(t, "config error:"@)
    ||| contains(t, "missing required parameter"@)
    ||| contains(t, "' is required for"@)
}

/// Whether the model should see the tool's full schema because of this result.
pub fn should_supplement_tool_schema(result: &str) -> (r: bool)
    ensures
        r == wrong_call(result@),
{
    let chars = chars_of(result);
    let t = text_of(lower_chars(chars.as_slice()).as_slice());
    has_text(t.as_str(), "unknown tool:") || has_text(t.as_str(), "validation error:") || has_text(
        t.as_str(),
        "config error:",
    ) || has_text(t.as_str(), "missing required parameter") || has_text(
        t.as_str(),
        "' is required for",
    )
}

/// What a tool outside the scope of a conversation answers.
pub fn scoped_tool_denied_result(tool_name: &str) -> (r: String)
    ensures
        r@ == "Error: Tool '"@ + tool_name@
            + "' is not available in the current built-in/skill scope."@,
{
    let mut r = "Error: Tool '".to_owned();
    r.push_str(tool_name);
    r.push_str("' is not available in the current built-in/skill scope.");
    r
}

// ---------------------------------------------------------------------------
// Searching and fetching
// ---------------------------------------------------------------------------

pub open spec fn results_of(value: JsonView) -> Option<Seq<JsonView>> {
    match value.get("results"@) {
        Some(v) => v.as_array(),
        None => None,
    }
}

/// What a search result says of a page.
pub open spec fn snippet(result: JsonView) -> Seq<char> {
    match result.str_at("snippet"@) {
        Some(s) => s,
        None => result.str_or("description"@, Seq::empty()),
    }
}

pub open spec fn short_snippet(s: Seq<char>) -> Seq<char> {
    if s.len() > 240 {
        s.take(240) + "..."@
    } else {
        s
    }
}

pub open spec fn says_nothing(result: JsonView) -> bool {
    result.str_or("title"@, Seq::empty()).len() == 0 && result.str_or("url"@, Seq::empty()).len()
        == 0 && snippet(result).len() == 0
}

/// The entries of search results that say anything, numbered, and how many there are.
pub open spec fn result_entries(results: Seq<JsonView>) -> (Seq<char>, nat)
    decreases results.len(),
{
    if results.len() == 0 {
        (Seq::empty(), 0)
    } else {
        let (text, n) = result_entries(results.drop_last());
        let r = results.last();
        if says_nothing(r) {
            (text, n)
        } else {
            (
                text + (decimal(n + 1) + ". "@ + r.str_or("title"@, Seq::empty()) + "\n"@
                    + r.str_or("url"@, Seq::empty()) + "\n"@ + short_snippet(snippet(r))
                    + "\n\n"@),
                n + 1,
            )
        }
    }
}

pub open spec fn some_if_any(text: Seq<char>) -> Option<Seq<char>> {
    if text.len() == 0 {
        None
    } else {
        Some(text)
    }
}

/// The first eight results of a search as text.
pub open spec fn condensed_search(value: JsonView) -> Option<Seq<char>> {
    match results_of(value) {
        None => None,
        Some(results) => some_if_any(
            trim(
                result_entries(
                    if results.len() > 8 {
                        results.take(8)
                    } else {
                        results
                    },
                ).0,
            ),
        ),
    }
}

fn str_or_empty(value: &Json, key: &str) -> (r: String)
    ensures
        r@ == value@.str_or(key@, Seq::empty()),
{
    match value.str_at(key) {
        Some(s) => s.to_owned(),
        None => String::new(),
    }
}

fn snippet_of(result: &Json) -> (r: String)
    ensures
        r@ == snippet(result@),
{
    match result.str_at("snippet") {
        Some(s) => s.to_owned(),
        None => str_or_empty(result, "description"),
    }
}

/// The first results of a search as text.
pub fn condense_search(value: &Json) -> (r: Option<String>)
    ensures
        opt_text(r) == condensed_search(value@),
{
    let results = match value.get("results") {
        Some(v) => match v.as_array() {
            Some(results) => results,
            None => {
                return None;
            },
        },
        None => {
            return None;
        },
    };
    let n: usize = if results.len() > 8 {
        8
    } else {
        results.len()
    };
    let ghost views = items_view(results@).take(n as int);
    let mut out = String::new();
    let mut count: u64 = 0;
    let mut i: usize = 0;
    while i < n
        invariant
            i <= n <= 8,
            n <= results.len(),
            count <= i,
            views == items_view(results@).take(n as int),
            (out@, count as nat) == result_entries(views.take(i as int)),
        decreases n - i,
    {
        assert(views.take(i + 1).drop_last() =~= views.take(i as int));
        let result = &results[i];
        assert(views[i as int] == result@);
        let title = str_or_empty(result, "title");
        let url = str_or_empty(result, "url");
        let said = snippet_of(result);
        if !(title.as_str().is_empty() && url.as_str().is_empty() && said.as_str().is_empty()) {
            count += 1;
            let mut entry = decimal_text(count);
            entry.push_str(". ");
            entry.push_str(title.as_str());
            entry.push_str("\n");
            entry.push_str(url.as_str());
            entry.push_str("\n");
            let chars = chars_of(said.as_str());
            let short = if chars.len() > 240 {
                let mut cut = text_of(before(chars.as_slice(), 240));
                cut.push_str("...");
                cut
            } else {
                said
            };
            entry.push_str(short.as_str());
            entry.push_str("\n\n");
            out.push_str(entry.as_str());
        }
        i += 1;
    }
    assert(views.take(n as int) =~= views);
    assert(results.len() <= 8 ==> views =~= items_view(results@));
    let chars = chars_of(out.as_str());
    let t = trim_chars(chars.as_slice());
    if t.len() == 0 {
        None
    } else {
        Some(text_of(t))
    }
}

/// The result of a web search as text; nothing where it is not in the usual form or empty.
pub fn condense_web_search_result(raw: &str) -> (r: Option<String>)
    ensures
        opt_text(r) == (match json_parsed(raw@) {
            Some(value) => condensed_search(value),
            None => None,
        }),
{
    match parse(raw) {
        Some(value) => condense_search(&value),
        None => None,
    }
}

pub open spec fn rich_count(results: Seq<JsonView>) -> nat
    decreases results.len(),
{
    if results.len() == 0 {
        0
    } else {
        rich_count(results.drop_last()) + (if snippet(results.last()).len() > 30 {
            1nat
        } else {
            0nat
        })
    }
}

/// Fewer than half of the results of a search say more than thirty characters.
pub open spec fn thin(value: JsonView) -> bool {
    match results_of(value) {
        Some(results) => results.len() > 0 && rich_count(results) * 2 < results.len(),
        None => false,
    }
}

/// Whether a search gave little more than titles.
pub fn is_thin(value: &Json) -> (r: bool)
    ensures
        r == thin(value@),
{
    let results = match value.get("results") {
        Some(v) => match v.as_array() {
            Some(results) => results,
            None => {
                return false;
            },
        },
        None => {
            return false;
        },
    };
    let ghost views = items_view(results@);
    let mut rich: usize = 0;
    let mut i: usize = 0;
    while i < results.len()
        invariant
            i <= results.len(),
            rich <= i,
            views == items_view(results@),
            rich == rich_count(views.take(i as int)),
        decreases results.len() - i,
    {
        assert(views.take(i + 1).drop_last() =~= views.take(i as int));
        if chars_of(snippet_of(&results[i]).as_str()).len() > 30 {
            rich += 1;
        }
        i += 1;
    }
    assert(views.take(views.len() as int) =~= views);
    results.len() > 0 && rich < results.len() - rich
}

/// Whether a web search gave little more than titles, so that pages should be fetched.
pub fn is_thin_search_result(raw: &str) -> (r: bool)
    ensures
        r == (match json_parsed(raw@) {
            Some(value) => thin(value),
            None => false,
        }),
{
    match parse(raw) {
        Some(value) => is_thin(&value),
        None => false,
    }
}

pub open spec fn urls_among(results: Seq<JsonView>) -> Seq<Seq<char>>
    decreases results.len(),
{
    if results.len() == 0 {
        Seq::empty()
    } else {
        match results.last().str_at("url"@) {
            Some(url) if url.len() > 0 => urls_among(results.drop_last()).push(url),
            _ => urls_among(results.drop_last()),
        }
    }
}

/// The first three addresses among the results of a search.
pub open spec fn top_urls(value: JsonView) -> Seq<Seq<char>> {
    match results_of(value) {
        Some(results) => {
            let all = urls_among(results);
            if all.len() > 3 {
                all.take(3)
            } else {
                all
            }
        },
        None => Seq::empty(),
    }
}

/// The first three addresses among the results of a search.
pub fn top_urls_of(value: &Json) -> (r: Vec<String>)
    ensures
        texts_view(r@) == top_urls(value@),
{
    let mut urls: Vec<String> = Vec::new();
    assert(texts_view(urls@) =~= Seq::empty());
    let results = match value.get("results") {
        Some(v) => match v.as_array() {
            Some(results) => results,
            None => {
                return urls;
            },
        },
        None => {
            return urls;
        },
    };
    let ghost views = items_view(results@);
    let mut i: usize = 0;
    while i < results.len()
        invariant
            i <= results.len(),
            views == items_view(results@),
            texts_view(urls@) == urls_among(views.take(i as int)),
        decreases results.len() - i,
    {
        assert(views.take(i + 1).drop_last() =~= views.take(i as int));
        if let Some(url) = results[i].str_at("url") {
            if !url.is_empty() {
                let ghost so_far = texts_view(urls@);
                urls.push(url.to_owned());
                assert(texts_view(urls@) =~= so_far.push(url@));
            }
        }
        i += 1;
    }
    assert(views.take(views.len() as int) =~= views);
    let ghost all = texts_view(urls@);
    if urls.len() > 3 {
        urls.truncate(3);
        assert(texts_view(urls@) =~= all.take(3));
    }
    urls
}

/// The first three addresses in the result of a web search.
pub fn extract_urls_from_search_result(raw: &str) -> (r: Vec<String>)
    ensures
        texts_view(r@) == (match json_parsed(raw@) {
            Some(value) => top_urls(value),
            None => Seq::empty(),
        }),
{
    match parse(raw) {
        Some(value) => top_urls_of(&value),
        None => {
            let none: Vec<String> = Vec::new();
            assert(texts_view(none@) =~= Seq::empty());
            none
        },
    }
}

/// The content of a fetched page: whole up to sixteen hundred characters, beyond that its start
/// and its end.
pub open spec fn condensed_page(value: JsonView) -> Option<Seq<char>> {
    let content = match value.str_at("content"@) {
        Some(s) => s,
        None => value.str_or("text"@, Seq::empty()),
    };
    if trim(content).len() == 0 {
        None
    } else if content.len() <= 1600 {
        Some(trim(content))
    } else {
        Some(
            trim(content.take(1100)) + "\n...<trimmed "@ + decimal((content.len() - 1500) as nat)
                + " chars>...\n"@ + trim(content.skip(content.len() - 400)),
        )
    }
}

/// The content of a fetched page in short.
pub fn condense_page(value: &Json) -> (r: Option<String>)
    ensures
        opt_text(r) == condensed_page(value@),
{
    let content = match value.str_at("content") {
        Some(s) => s.to_owned(),
        None => str_or_empty(value, "text"),
    };
    let chars = chars_of(content.as_str());
    let all = chars.as_slice();
    let t = trim_chars(all);
    if t.len() == 0 {
        return None;
    }
    if chars.len() <= 1600 {
        return Some(text_of(t));
    }
    let mut r = text_of(trim_chars(before(all, 1100)));
    r.push_str("\n...<trimmed ");
    r.push_str(decimal_text((chars.len() - 1500) as u64).as_str());
    r.push_str(" chars>...\n");
    r.push_str(text_of(trim_chars(after(all, chars.len() - 400))).as_str());
    Some(r)
}

/// The result of fetching a page in short; nothing where it is not in the usual form or empty.
pub fn condense_web_fetch_result(raw: &str) -> (r: Option<String>)
    ensures
        opt_text(r) == (match json_parsed(raw@) {
            Some(value) => condensed_page(value),
            None => None,
        }),
{
    match parse(raw) {
        Some(value) => condense_page(&value),
        None => None,
    }
}

} // verus!
