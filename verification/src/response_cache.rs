//! Long list answers, kept aside per session and stood for by short stubs.

use crate::clock::{now_nanos, now_seconds};
use crate::json::{json_text, object3, render};
use crate::text::{
    after, before, chars_of, decimal, decimal_text, digit_char, find, hex, is_digit, join,
    join_texts, lemma_find_from, lines_of, occurs_at, opt_text, push_hex, same_text, slices_view,
    starts_with, strip_prefix, strip_prefix_chars, text_lines, text_of, texts_view, trim,
    trim_chars,
};
use crate::value::{Json, JsonView};
use vstd::prelude::*;

verus! {

// ---------------------------------------------------------------------------
// Lists
// ---------------------------------------------------------------------------

/// How many digits a text starts with.
pub open spec fn digit_count(s: Seq<char>) -> nat
    decreases s.len(),
{
    if s.len() > 0 && is_digit(s[0]) {
        1 + digit_count(s.skip(1))
    } else {
        0
    }
}

pub open spec fn either(a: Option<Seq<char>>, b: Option<Seq<char>>) -> Option<Seq<char>> {
    match a {
        Some(s) => Some(s),
        None => b,
    }
}

/// What follows a number and `. ` or `) ` at the start of a line.
pub open spec fn numbered_item(s: Seq<char>) -> Option<Seq<char>> {
    let n = digit_count(s) as int;
    if n == 0 {
        None
    } else {
        either(strip_prefix(s.skip(n), ". "@), strip_prefix(s.skip(n), ") "@))
    }
}

/// What follows a bullet at the start of a line.
pub open spec fn bulleted_item(s: Seq<char>) -> Option<Seq<char>> {
    either(strip_prefix(s, "- "@), either(strip_prefix(s, "* "@), strip_prefix(s, "• "@)))
}

/// The item that a line of a list holds.
pub open spec fn list_item(line: Seq<char>) -> Option<Seq<char>> {
    let t = trim(line);
    match numbered_item(t) {
        Some(item) if item.len() > 0 => Some(item),
        _ => match bulleted_item(t) {
            Some(item) if item.len() > 0 => Some(item),
            _ => None,
        },
    }
}

pub open spec fn items_in(lines: Seq<Seq<char>>) -> Seq<Seq<char>>
    decreases lines.len(),
{
    if lines.len() == 0 {
        Seq::empty()
    } else {
        match list_item(lines.last()) {
            Some(item) => items_in(lines.drop_last()).push(item),
            None => items_in(lines.drop_last()),
        }
    }
}

/// The items of the lists in a text.
pub open spec fn list_items(content: Seq<char>) -> Seq<Seq<char>> {
    items_in(text_lines(content))
}

fn numbered_item_of(s: &[char]) -> (r: Option<&[char]>)
    ensures
        match r {
            Some(item) => numbered_item(s@) == Some(item@),
            None => numbered_item(s@) is None,
        },
{
    let mut n: usize = 0;
    assert(s@.skip(0) =~= s@);
    while n < s.len() && '0' <= s[n] && s[n] <= '9'
        invariant
            n <= s.len(),
            digit_count(s@) == n + digit_count(s@.skip(n as int)),
        decreases s.len() - n,
    {
        assert(s@.skip(n as int).skip(1) =~= s@.skip(n + 1));
        n += 1;
    }
    if n == 0 {
        return None;
    }
    let rest = after(s, n);
    match strip_prefix_chars(rest, ". ") {
        Some(item) => Some(item),
        None => strip_prefix_chars(rest, ") "),
    }
}

fn list_item_of(line: &[char]) -> (r: Option<String>)
    ensures
        opt_text(r) == list_item(line@),
{
    let t = trim_chars(line);
    if let Some(item) = numbered_item_of(t) {
        if item.len() > 0 {
            return Some(text_of(item));
        }
    }
    let bulleted = match strip_prefix_chars(t, "- ") {
        Some(item) => Some(item),
        None => match strip_prefix_chars(t, "* ") {
            Some(item) => Some(item),
            None => strip_prefix_chars(t, "• "),
        },
    };
    if let Some(item) = bulleted {
        if item.len() > 0 {
            return Some(text_of(item));
        }
    }
    None
}

// ---------------------------------------------------------------------------
// Stubs
// ---------------------------------------------------------------------------

pub open spec fn cut(s: Seq<char>, max: int) -> Seq<char> {
    if s.len() <= max {
        s
    } else {
        s.take(max)
    }
}

/// The first three items, numbered and cut to a hundred characters each.
pub open spec fn preview_lines(items: Seq<Seq<char>>, count: nat) -> Seq<Seq<char>>
    decreases count,
{
    if count == 0 || count > items.len() {
        Seq::empty()
    } else {
        preview_lines(items, (count - 1) as nat).push(
            decimal(count) + ". "@ + cut(items[count - 1], 100),
        )
    }
}

/// The text that stands for a cached answer.
pub open spec fn stub_text(items: Seq<Seq<char>>, ref_id: Seq<char>) -> Seq<char> {
    "[已缓存"@ + decimal(items.len()) + "条结果，ID: ref:"@ + ref_id + "]\n"@ + join(
        preview_lines(items, if items.len() < 3 { items.len() } else { 3 }),
        "\n"@,
    ) + "\n...（共"@ + decimal(items.len())
        + "条，使用 session_recall 工具获取完整内容）"@
}

/// An answer is kept aside where it has more than eight hundred characters and at least five
/// list items.
pub open spec fn worth_caching(content: Seq<char>) -> bool {
    content.len() > 800 && list_items(content).len() >= 5
}

fn stub_text_of(items: &Vec<String>, ref_id: &str) -> (r: String)
    ensures
        r@ == stub_text(texts_view(items@), ref_id@),
{
    let ghost views = texts_view(items@);
    let mut lines: Vec<String> = Vec::new();
    let count: usize = if items.len() < 3 {
        items.len()
    } else {
        3
    };
    let mut i: usize = 0;
    assert(texts_view(lines@) =~= Seq::empty());
    while i < count
        invariant
            i <= count <= items.len(),
            views == texts_view(items@),
            texts_view(lines@) == preview_lines(views, i as nat),
        decreases count - i,
    {
        let chars = chars_of(items[i].as_str());
        assert(views[i as int] == chars@);
        let short = if chars.len() <= 100 {
            chars.as_slice()
        } else {
            before(chars.as_slice(), 100)
        };
        let ghost so_far = texts_view(lines@);
        let mut line = decimal_text((i + 1) as u64);
        line.push_str(". ");
        line.push_str(text_of(short).as_str());
        lines.push(line);
        assert(texts_view(lines@) =~= so_far.push(line@));
        i += 1;
    }
    let n = decimal_text(items.len() as u64);
    let mut r = "[已缓存".to_owned();
    r.push_str(n.as_str());
    r.push_str("条结果，ID: ref:");
    r.push_str(ref_id);
    r.push_str("]\n");
    r.push_str(join_texts(&lines, "\n").as_str());
    r.push_str("\n...（共");
    r.push_str(n.as_str());
    r.push_str("条，使用 session_recall 工具获取完整内容）");
    r
}

// ---------------------------------------------------------------------------
// The cache
// ---------------------------------------------------------------------------

pub struct CacheEntry {
    session: String,
    ref_id: String,
    content: String,
    created_at: i64,
}

pub struct EntryView {
    pub session: Seq<char>,
    pub ref_id: Seq<char>,
    pub content: Seq<char>,
    pub created_at: int,
}

impl View for CacheEntry {
    type V = EntryView;

    closed spec fn view(&self) -> EntryView {
        EntryView {
            session: self.session@,
            ref_id: self.ref_id@,
            content: self.content@,
            created_at: self.created_at as int,
        }
    }
}

/// How many entries one session may have.
pub const MAX_PER_SESSION: usize = 10;

pub open spec fn count_of(entries: Seq<EntryView>, session: Seq<char>) -> nat
    decreases entries.len(),
{
    if entries.len() == 0 {
        0
    } else {
        count_of(entries.drop_last(), session) + (if entries.last().session == session {
            1nat
        } else {
            0nat
        })
    }
}

/// Where the entry of this session with this id stands.
pub open spec fn position(entries: Seq<EntryView>, session: Seq<char>, ref_id: Seq<char>) -> Option<
    int,
>
    decreases entries.len(),
{
    if entries.len() == 0 {
        None
    } else if entries.last().session == session && entries.last().ref_id == ref_id {
        Some(entries.len() - 1)
    } else {
        position(entries.drop_last(), session, ref_id)
    }
}

/// Where the oldest entry of this session stands, the first of several that are equally old.
pub open spec fn oldest(entries: Seq<EntryView>, session: Seq<char>) -> Option<int>
    decreases entries.len(),
{
    if entries.len() == 0 {
        None
    } else {
        match oldest(entries.drop_last(), session) {
            None => if entries.last().session == session {
                Some(entries.len() - 1)
            } else {
                None
            },
            Some(i) => if entries.last().session == session && entries.last().created_at
                < entries[i].created_at {
                Some(entries.len() - 1)
            } else {
                Some(i)
            },
        }
    }
}

/// The entries without the oldest of a session that is full.
pub open spec fn with_room(entries: Seq<EntryView>, session: Seq<char>) -> Seq<EntryView> {
    match oldest(entries, session) {
        Some(i) if count_of(entries, session) >= MAX_PER_SESSION => entries.remove(i),
        _ => entries,
    }
}

/// The entries with one more, which replaces the one of the same session and id.
pub open spec fn stored(entries: Seq<EntryView>, entry: EntryView) -> Seq<EntryView> {
    let room = with_room(entries, entry.session);
    match position(room, entry.session, entry.ref_id) {
        Some(i) => room.update(i, entry),
        None => room.push(entry),
    }
}

pub open spec fn found(entries: Seq<EntryView>, session: Seq<char>, ref_id: Seq<char>) -> Option<
    Seq<char>,
> {
    match position(entries, session, ref_id) {
        Some(i) => Some(entries[i].content),
        None => None,
    }
}

pub open spec fn others(entries: Seq<EntryView>, session: Seq<char>) -> Seq<EntryView>
    decreases entries.len(),
{
    if entries.len() == 0 {
        Seq::empty()
    } else if entries.last().session == session {
        others(entries.drop_last(), session)
    } else {
        others(entries.drop_last(), session).push(entries.last())
    }
}

/// The id without the prefix `ref:`.
pub open spec fn bare_id(ref_id: Seq<char>) -> Seq<char> {
    match strip_prefix(ref_id, "ref:"@) {
        Some(id) => id,
        None => ref_id,
    }
}

/// No two entries have the same session and id, and no session has more than its share.
pub open spec fn cache_ok(entries: Seq<EntryView>) -> bool {
    &&& forall|i: int, j: int|
        0 <= i < j < entries.len() && (#[trigger] entries[i]).session == (
        #[trigger] entries[j]).session ==> entries[i].ref_id != entries[j].ref_id
    &&& forall|s: Seq<char>| #[trigger] count_of(entries, s) <= MAX_PER_SESSION
}

proof fn lemma_position(entries: Seq<EntryView>, session: Seq<char>, ref_id: Seq<char>)
    ensures
        match position(entries, session, ref_id) {
            Some(i) => 0 <= i < entries.len() && entries[i].session == session
                && entries[i].ref_id == ref_id,
            None => forall|i: int|
                0 <= i < entries.len() ==> !((#[trigger] entries[i]).session == session
                    && entries[i].ref_id == ref_id),
        },
    decreases entries.len(),
{
    if entries.len() > 0 && !(entries.last().session == session && entries.last().ref_id
        == ref_id) {
        let prior = entries.drop_last();
        lemma_position(prior, session, ref_id);
        if position(prior, session, ref_id) is None {
            assert forall|i: int| 0 <= i < entries.len() implies !((
            #[trigger] entries[i]).session == session && entries[i].ref_id == ref_id) by {
                if i < prior.len() {
                    assert(prior[i] == entries[i]);
                }
            }
        }
    }
}

/// Where ids are unique, an entry is found at its place.
proof fn lemma_position_unique(entries: Seq<EntryView>, i: int)
    requires
        cache_ok(entries),
        0 <= i < entries.len(),
    ensures
        position(entries, entries[i].session, entries[i].ref_id) == Some(i),
{
    lemma_position(entries, entries[i].session, entries[i].ref_id);
    let p = position(entries, entries[i].session, entries[i].ref_id)->0;
    if p < i {
        assert(entries[p].ref_id != entries[i].ref_id);
    } else if i < p {
        assert(entries[i].ref_id != entries[p].ref_id);
    }
}

proof fn lemma_oldest(entries: Seq<EntryView>, session: Seq<char>)
    ensures
        match oldest(entries, session) {
            Some(i) => {
                &&& 0 <= i < entries.len()
                &&& entries[i].session == session
                &&& forall|j: int|
                    0 <= j < entries.len() && (#[trigger] entries[j]).session == session
                        ==> entries[i].created_at <= entries[j].created_at
            },
            None => count_of(entries, session) == 0 && forall|j: int|
                0 <= j < entries.len() ==> (#[trigger] entries[j]).session != session,
        },
    decreases entries.len(),
{
    if entries.len() > 0 {
        let prior = entries.drop_last();
        lemma_oldest(prior, session);
        assert forall|j: int| 0 <= j < prior.len() implies prior[j] == entries[j] by {}
        match oldest(entries, session) {
            Some(i) => {
                assert forall|j: int|
                    0 <= j < entries.len() && (#[trigger] entries[j]).session
                        == session implies entries[i].created_at <= entries[j].created_at by {
                    if j < prior.len() {
                        assert(prior[j] == entries[j]);
                    }
                }
            },
            None => {
                assert forall|j: int| 0 <= j < entries.len() implies (
                #[trigger] entries[j]).session != session by {
                    if j < prior.len() {
                        assert(prior[j] == entries[j]);
                    }
                }
            },
        }
    }
}

proof fn lemma_count_remove(entries: Seq<EntryView>, i: int, session: Seq<char>)
    requires
        0 <= i < entries.len(),
    ensures
        count_of(entries.remove(i), session) == count_of(entries, session) - (if entries[i].session
            == session {
            1int
        } else {
            0int
        }),
    decreases entries.len(),
{
    if i == entries.len() - 1 {
        assert(entries.remove(i) =~= entries.drop_last());
    } else {
        lemma_count_remove(entries.drop_last(), i, session);
        assert(entries.remove(i).drop_last() =~= entries.drop_last().remove(i));
        assert(entries.remove(i).last() == entries.last());
    }
}

proof fn lemma_count_update(entries: Seq<EntryView>, i: int, entry: EntryView, session: Seq<char>)
    requires
        0 <= i < entries.len(),
        entries[i].session == entry.session,
    ensures
        count_of(entries.update(i, entry), session) == count_of(entries, session),
    decreases entries.len(),
{
    if i == entries.len() - 1 {
        assert(entries.update(i, entry).drop_last() =~= entries.drop_last());
    } else {
        lemma_count_update(entries.drop_last(), i, entry, session);
        assert(entries.update(i, entry).drop_last() =~= entries.drop_last().update(i, entry));
    }
}

proof fn lemma_room(entries: Seq<EntryView>, session: Seq<char>)
    requires
        cache_ok(entries),
    ensures
        cache_ok(with_room(entries, session)),
        count_of(with_room(entries, session), session) < MAX_PER_SESSION,
        forall|s: Seq<char>, id: Seq<char>|
            s != session ==> #[trigger] found(with_room(entries, session), s, id) == found(
                entries,
                s,
                id,
            ),
{
    lemma_oldest(entries, session);
    let room = with_room(entries, session);
    if room != entries {
        let k = oldest(entries, session)->0;
        assert forall|s: Seq<char>| #[trigger] count_of(room, s) <= MAX_PER_SESSION by {
            lemma_count_remove(entries, k, s);
            assert(count_of(entries, s) <= MAX_PER_SESSION);
        }
        lemma_count_remove(entries, k, session);
        assert forall|i: int, j: int|
            0 <= i < j < room.len() && (#[trigger] room[i]).session == (
            #[trigger] room[j]).session implies room[i].ref_id != room[j].ref_id by {
            let a = if i < k { i } else { i + 1 };
            let b = if j < k { j } else { j + 1 };
            assert(room[i] == entries[a] && room[j] == entries[b]);
        }
        assert forall|s: Seq<char>, id: Seq<char>| s != session implies #[trigger] found(
            room,
            s,
            id,
        ) == found(entries, s, id) by {
            lemma_position(entries, s, id);
            lemma_position(room, s, id);
            match position(entries, s, id) {
                Some(p) => {
                    let q = if p < k { p } else { p - 1 };
                    assert(room[q] == entries[p]);
                    lemma_position_unique(room, q);
                },
                None => {
                    if position(room, s, id) is Some {
                        let q = position(room, s, id)->0;
                        let p = if q < k { q } else { q + 1 };
                        assert(room[q] == entries[p]);
                    }
                },
            }
        }
    }
}

/// What is stored is found again under its id, other sessions are untouched, the session's other
/// entries are found unless the oldest made room, and the cache stays in order.
pub proof fn law_stored_is_found(entries: Seq<EntryView>, entry: EntryView)
    requires
        cache_ok(entries),
    ensures
        cache_ok(stored(entries, entry)),
        found(stored(entries, entry), entry.session, entry.ref_id) == Some(entry.content),
        forall|s: Seq<char>, id: Seq<char>|
            s != entry.session ==> #[trigger] found(stored(entries, entry), s, id) == found(
                entries,
                s,
                id,
            ),
        forall|id: Seq<char>|
            id != entry.ref_id ==> #[trigger] found(stored(entries, entry), entry.session, id)
                == found(with_room(entries, entry.session), entry.session, id),
{
    let room = with_room(entries, entry.session);
    lemma_room(entries, entry.session);
    lemma_position(room, entry.session, entry.ref_id);
    let now = stored(entries, entry);
    match position(room, entry.session, entry.ref_id) {
        Some(k) => {
            assert forall|s: Seq<char>| #[trigger] count_of(now, s) <= MAX_PER_SESSION by {
                lemma_count_update(room, k, entry, s);
                assert(count_of(room, s) <= MAX_PER_SESSION);
            }
            assert forall|i: int, j: int|
                0 <= i < j < now.len() && (#[trigger] now[i]).session == (
                #[trigger] now[j]).session implies now[i].ref_id != now[j].ref_id by {
                assert(room[i].session == now[i].session && room[i].ref_id == now[i].ref_id);
                assert(room[j].session == now[j].session && room[j].ref_id == now[j].ref_id);
            }
            lemma_position_unique(now, k);
            assert forall|s: Seq<char>, id: Seq<char>|
                s != entry.session || id != entry.ref_id implies #[trigger] found(now, s, id)
                == found(room, s, id) by {
                lemma_position(now, s, id);
                lemma_position(room, s, id);
                if position(room, s, id) is Some {
                    let p = position(room, s, id)->0;
                    assert(now[p] == room[p]);
                    lemma_position_unique(now, p);
                } else if position(now, s, id) is Some {
                    let p = position(now, s, id)->0;
                    assert(now[p] == room[p]);
                }
            }
        },
        None => {
            assert(now.drop_last() =~= room);
            assert forall|s: Seq<char>| #[trigger] count_of(now, s) <= MAX_PER_SESSION by {
                assert(count_of(room, s) <= MAX_PER_SESSION);
            }
            assert forall|i: int, j: int|
                0 <= i < j < now.len() && (#[trigger] now[i]).session == (
                #[trigger] now[j]).session implies now[i].ref_id != now[j].ref_id by {
                assert(now[i] == room[i]);
                if j < room.len() {
                    assert(now[j] == room[j]);
                }
            }
            assert(position(now, entry.session, entry.ref_id) == Some(room.len() as int));
            assert forall|s: Seq<char>, id: Seq<char>|
                s != entry.session || id != entry.ref_id implies #[trigger] found(now, s, id)
                == found(room, s, id) by {
                lemma_position(room, s, id);
            }
        },
    }
}

proof fn lemma_others(entries: Seq<EntryView>, session: Seq<char>)
    requires
        cache_ok(entries),
    ensures
        cache_ok(others(entries, session)),
        forall|id: Seq<char>| #[trigger] found(others(entries, session), session, id) is None,
        forall|s: Seq<char>, id: Seq<char>|
            s != session ==> #[trigger] found(others(entries, session), s, id) == found(
                entries,
                s,
                id,
            ),
        forall|e: EntryView|
            #[trigger] others(entries, session).contains(e) ==> entries.contains(e) && e.session
                != session,
        forall|s: Seq<char>|
            #[trigger] count_of(others(entries, session), s) <= count_of(entries, s),
    decreases entries.len(),
{
    if entries.len() > 0 {
        let prior = entries.drop_last();
        assert forall|i: int, j: int|
            0 <= i < j < prior.len() && (#[trigger] prior[i]).session == (
            #[trigger] prior[j]).session implies prior[i].ref_id != prior[j].ref_id by {
            assert(prior[i] == entries[i] && prior[j] == entries[j]);
        }
        assert forall|s: Seq<char>| #[trigger] count_of(prior, s) <= MAX_PER_SESSION by {
            assert(count_of(entries, s) <= MAX_PER_SESSION);
        }
        lemma_others(prior, session);
        let rest = others(prior, session);
        let now = others(entries, session);
        let last = entries.last();
        assert forall|e: EntryView| #[trigger] now.contains(e) implies entries.contains(e)
            && e.session != session by {
            let k = choose|k: int| 0 <= k < now.len() && now[k] == e;
            if k < rest.len() {
                assert(rest[k] == e);
                assert(rest.contains(e));
                let m = choose|m: int| 0 <= m < prior.len() && prior[m] == e;
                assert(entries[m] == e);
            } else {
                assert(entries[entries.len() - 1] == e);
            }
        }
        if last.session != session {
            assert(now.drop_last() =~= rest);
            assert forall|i: int, j: int|
                0 <= i < j < now.len() && (#[trigger] now[i]).session == (
                #[trigger] now[j]).session implies now[i].ref_id != now[j].ref_id by {
                if j < rest.len() {
                    assert(rest[i] == now[i] && rest[j] == now[j]);
                } else {
                    assert(rest[i] == now[i]);
                    assert(rest.contains(rest[i]));
                    let m = choose|m: int| 0 <= m < prior.len() && prior[m] == rest[i];
                    assert(entries[m] == rest[i]);
                    assert(entries[entries.len() - 1] == last);
                }
            }
        }
        assert forall|s: Seq<char>| #[trigger] count_of(now, s) <= count_of(entries, s) by {
            assert(count_of(rest, s) <= count_of(prior, s));
        }
        assert forall|s: Seq<char>| #[trigger] count_of(now, s) <= MAX_PER_SESSION by {
            assert(count_of(entries, s) <= MAX_PER_SESSION);
        }
        assert forall|s: Seq<char>, id: Seq<char>| s != session implies #[trigger] found(
            now,
            s,
            id,
        ) == found(entries, s, id) by {
            assert(found(rest, s, id) == found(prior, s, id));
            lemma_position(rest, s, id);
            lemma_position(prior, s, id);
        }
        assert forall|id: Seq<char>| #[trigger] found(now, session, id) is None by {
            lemma_position(now, session, id);
            if position(now, session, id) is Some {
                let p = position(now, session, id)->0;
                assert(now.contains(now[p]));
            }
        }
    }
}

/// Once a session is cleared nothing of it is found, and other sessions are untouched.
pub proof fn law_cleared_is_gone(entries: Seq<EntryView>, session: Seq<char>)
    requires
        cache_ok(entries),
    ensures
        cache_ok(others(entries, session)),
        forall|id: Seq<char>| #[trigger] found(others(entries, session), session, id) is None,
        forall|s: Seq<char>, id: Seq<char>|
            s != session ==> #[trigger] found(others(entries, session), s, id) == found(
                entries,
                s,
                id,
            ),
{
    lemma_others(entries, session);
}

/// Storing an answer in a full session forgets the oldest answer of the session, and no other. In
/// a session whose answers were kept one after the other, that is the first.
pub proof fn law_full_session_forgets_its_oldest(entries: Seq<EntryView>, entry: EntryView)
    requires
        cache_ok(entries),
        count_of(entries, entry.session) == MAX_PER_SESSION,
    ensures
        oldest(entries, entry.session) is Some,
        ({
            let k = oldest(entries, entry.session)->0;
            let now = stored(entries, entry);
            &&& 0 <= k < entries.len() && entries[k].session == entry.session
            &&& entries[k].ref_id != entry.ref_id ==> found(
                now,
                entry.session,
                entries[k].ref_id,
            ) is None
            &&& forall|i: int|
                0 <= i < entries.len() && i != k && (#[trigger] entries[i]).session
                    == entry.session ==> {
                    &&& entries[k].created_at <= entries[i].created_at
                    &&& entries[i].ref_id != entry.ref_id ==> found(
                        now,
                        entry.session,
                        entries[i].ref_id,
                    ) == Some(entries[i].content)
                }
            &&& in_order_of_time(entries, entry.session) ==> forall|i: int|
                0 <= i < k ==> (#[trigger] entries[i]).session != entry.session
        }),
{
    let session = entry.session;
    lemma_oldest(entries, session);
    lemma_room(entries, session);
    law_stored_is_found(entries, entry);
    let k = oldest(entries, session)->0;
    let room = with_room(entries, session);
    let now = stored(entries, entry);
    assert forall|i: int|
        0 <= i < entries.len() && i != k && (#[trigger] entries[i]).session
            == session && entries[i].ref_id != entry.ref_id implies found(
        now,
        session,
        entries[i].ref_id,
    ) == Some(entries[i].content) by {
        let q = if i < k {
            i
        } else {
            i - 1
        };
        assert(room[q] == entries[i]);
        lemma_position_unique(room, q);
    }
    if entries[k].ref_id != entry.ref_id {
        let id = entries[k].ref_id;
        lemma_position(room, session, id);
        if position(room, session, id) is Some {
            let q = position(room, session, id)->0;
            let p = if q < k {
                q
            } else {
                q + 1
            };
            assert(room[q] == entries[p]);
            lemma_position_unique(entries, p);
            lemma_position_unique(entries, k);
        }
    }
    if in_order_of_time(entries, session) {
        lemma_oldest_first(entries, session);
    }
}

/// The answers of a session stand in the order in which they were kept.
pub open spec fn in_order_of_time(entries: Seq<EntryView>, session: Seq<char>) -> bool {
    forall|i: int, j: int|
        0 <= i < j < entries.len() && (#[trigger] entries[i]).session == session && (
        #[trigger] entries[j]).session == session ==> entries[i].created_at
            <= entries[j].created_at
}

proof fn lemma_oldest_first(entries: Seq<EntryView>, session: Seq<char>)
    requires
        in_order_of_time(entries, session),
    ensures
        match oldest(entries, session) {
            Some(k) => forall|i: int| 0 <= i < k ==> (#[trigger] entries[i]).session != session,
            None => true,
        },
    decreases entries.len(),
{
    if entries.len() > 0 {
        let prior = entries.drop_last();
        assert(in_order_of_time(prior, session)) by {
            assert forall|i: int, j: int|
                0 <= i < j < prior.len() && (#[trigger] prior[i]).session == session && (
                #[trigger] prior[j]).session == session implies prior[i].created_at
                <= prior[j].created_at by {
                assert(prior[i] == entries[i] && prior[j] == entries[j]);
            }
        }
        lemma_oldest_first(prior, session);
        lemma_oldest(prior, session);
        match oldest(prior, session) {
            Some(k) => {
                assert(prior[k] == entries[k]);
                assert forall|i: int| 0 <= i < k implies (#[trigger] entries[i]).session
                    != session by {
                    assert(prior[i] == entries[i]);
                }
            },
            None => {
                assert forall|i: int| 0 <= i < entries.len() - 1 implies (
                #[trigger] entries[i]).session != session by {
                    assert(prior[i] == entries[i]);
                }
            },
        }
    }
}

/// The id that a stub names: what stands between the first `ref:` and the next `]`.
pub open spec fn named_id(stub: Seq<char>) -> Option<Seq<char>> {
    match find(stub, "ref:"@) {
        Some(i) => {
            let rest = stub.skip(i + 4);
            match find(rest, "]"@) {
                Some(j) => Some(rest.take(j)),
                None => None,
            }
        },
        None => None,
    }
}

/// The id in the stub of an answer recalls the answer, written with the prefix `ref:` or without.
pub proof fn law_stub_recalls(entries: Seq<EntryView>, entry: EntryView, hash: nat)
    requires
        cache_ok(entries),
        entry.ref_id == hex(hash, 8),
    ensures
        named_id(stub_text(list_items(entry.content), entry.ref_id)) == Some(entry.ref_id),
        found(stored(entries, entry), entry.session, bare_id(entry.ref_id)) == Some(entry.content),
        found(stored(entries, entry), entry.session, bare_id("ref:"@ + entry.ref_id)) == Some(
            entry.content,
        ),
{
    law_stored_is_found(entries, entry);
    let id = entry.ref_id;
    lemma_hex_digits(hash, 8);
    lemma_named_id(list_items(entry.content), id);
    reveal_strlit("ref:");
    assert("ref:"@.len() == 4 && "ref:"@[0] == 'r');
    if starts_with(id, "ref:"@) {
        assert(id.subrange(0, 4)[0] == id[0]);
    }
    let prefixed = "ref:"@ + id;
    assert(prefixed.subrange(0, 4) =~= "ref:"@);
    assert(prefixed.skip(4) =~= id);
}

/// The digits of a hexadecimal number are none of the characters that mark an id.
proof fn lemma_hex_digits(n: nat, digits: nat)
    ensures
        hex(n, digits).len() == digits,
        forall|i: int|
            0 <= i < digits ==> (#[trigger] hex(n, digits)[i]) != 'r' && hex(n, digits)[i] != ']',
    decreases digits,
{
    if digits > 0 {
        lemma_hex_digits(n / 16, (digits - 1) as nat);
    }
}

proof fn lemma_decimal_digits(n: nat)
    ensures
        forall|i: int| 0 <= i < decimal(n).len() ==> (#[trigger] decimal(n)[i]) != 'r',
    decreases n,
{
    if n >= 10 {
        lemma_decimal_digits(n / 10);
        assert(decimal(n) == decimal(n / 10).push(digit_char((n % 10) as int)));
        assert(digit_char((n % 10) as int) < 'r');
    } else {
        assert(decimal(n) == seq![digit_char(n as int)]);
        assert(digit_char(n as int) < 'r');
    }
}

proof fn lemma_named_id(items: Seq<Seq<char>>, id: Seq<char>)
    requires
        forall|i: int| 0 <= i < id.len() ==> (#[trigger] id[i]) != ']',
    ensures
        named_id(stub_text(items, id)) == Some(id),
{
    let head = "[已缓存"@;
    let count = decimal(items.len());
    let mark = "条结果，ID: ref:"@;
    let stub = stub_text(items, id);
    reveal_strlit("[已缓存");
    reveal_strlit("条结果，ID: ref:");
    reveal_strlit("ref:");
    reveal_strlit("]");
    reveal_strlit("]\n");
    assert(head.len() == 4 && mark.len() == 12 && "ref:"@.len() == 4);
    assert("]"@.len() == 1 && "]\n"@.len() == 2);
    lemma_decimal_digits(items.len());
    let at = (4 + count.len() + 8) as int;
    assert(stub.subrange(at, at + 4) =~= "ref:"@);
    assert(occurs_at(stub, "ref:"@, at));
    lemma_find_from(stub, "ref:"@, 0);
    let p = find(stub, "ref:"@)->0;
    assert(stub.subrange(p, p + 4)[0] == stub[p]);
    if p < at {
        if p < 4 {
            assert(stub[p] == head[p]);
        } else if p < 4 + count.len() {
            assert(stub[p] == count[p - 4]);
        } else {
            assert(stub[p] == mark[p - 4 - count.len()]);
        }
    }
    let rest = stub.skip(at + 4);
    assert(rest.take(id.len() as int) =~= id);
    let end = id.len() as int;
    assert(rest.subrange(end, end + 1) =~= "]"@);
    assert(occurs_at(rest, "]"@, end));
    lemma_find_from(rest, "]"@, 0);
    let q = find(rest, "]"@)->0;
    assert(rest.subrange(q, q + 1)[0] == rest[q]);
    if q < end {
        assert(rest[q] == id[q]);
    }
}

/// Long list answers by session.
pub struct ResponseCache {
    entries: Vec<CacheEntry>,
}

pub closed spec fn entries_view(entries: Seq<CacheEntry>) -> Seq<EntryView> {
    entries.map_values(|e: CacheEntry| e@)
}

impl View for ResponseCache {
    type V = Seq<EntryView>;

    closed spec fn view(&self) -> Seq<EntryView> {
        entries_view(self.entries@)
    }
}

/// Calls `std::hash::BuildHasher::hash_one` of the default hasher on a session key and a time.
/// Nothing is said of the result: the algorithm behind it is not specified.
#[verifier::external_body]
fn key_hash(session_key: &str, time: i64) -> (r: u64) {
    std::hash::BuildHasher::hash_one(
        &std::hash::BuildHasherDefault::<std::collections::hash_map::DefaultHasher>::default(),
        (session_key, time),
    )
}

/// The id that a hash gives: its lowest eight hexadecimal digits.
pub fn ref_id_of(hash: u64) -> (r: String)
    ensures
        r@ == hex(hash as nat, 8),
{
    let mut r = String::new();
    push_hex(&mut r, hash, 8);
    assert(r@ =~= hex(hash as nat, 8));
    r
}

/// An answer that is worth it is kept aside, can be found again, and is stood for by a stub; for
/// any other there is none, and nothing is kept.
pub open spec fn kept_aside(
    stub: Option<Seq<char>>,
    before: Seq<EntryView>,
    after: Seq<EntryView>,
    entry: EntryView,
) -> bool {
    if worth_caching(entry.content) {
        &&& stub == Some(stub_text(list_items(entry.content), entry.ref_id))
        &&& after == stored(before, entry)
        &&& found(after, entry.session, entry.ref_id) == Some(entry.content)
    } else {
        stub is None && after == before
    }
}

/// Where the entry of this session with this id stands.
fn position_in(entries: &Vec<CacheEntry>, session_key: &str, ref_id: &str) -> (r: Option<usize>)
    ensures
        match r {
            Some(i) => position(entries_view(entries@), session_key@, ref_id@) == Some(i as int)
                && i < entries@.len(),
            None => position(entries_view(entries@), session_key@, ref_id@) is None,
        },
{
    let ghost views = entries_view(entries@);
    let mut n: usize = entries.len();
    assert(views.take(views.len() as int) =~= views);
    while n > 0
        invariant
            n <= entries.len(),
            views == entries_view(entries@),
            position(views, session_key@, ref_id@) == position(
                views.take(n as int),
                session_key@,
                ref_id@,
            ),
        decreases n,
    {
        assert(views.take(n as int).drop_last() =~= views.take(n - 1));
        assert(views[n - 1] == entries@[n - 1]@);
        if same_text(entries[n - 1].session.as_str(), session_key) && same_text(
            entries[n - 1].ref_id.as_str(),
            ref_id,
        ) {
            return Some(n - 1);
        }
        n -= 1;
    }
    None
}

impl ResponseCache {
    #[verifier::type_invariant]
    spec fn in_order(self) -> bool {
        cache_ok(entries_view(self.entries@))
    }

    pub fn new() -> (r: Self)
        ensures
            r@ == Seq::<EntryView>::empty(),
            cache_ok(r@),
    {
        let entries: Vec<CacheEntry> = Vec::new();
        assert(entries_view(entries@) =~= Seq::empty());
        ResponseCache { entries }
    }

    /// Whether a text is long enough to be kept aside and holds a list.
    pub fn is_cacheable(content: &str) -> (r: bool)
        ensures
            r == (content@.len() > 800 && list_items(content@).len() > 0),
    {
        chars_of(content).len() > 800 && Self::extract_list_items(content).len() > 0
    }

    /// The items of the lists in a text: lines such as `1. item`, `1) item`, `- item`, `* item`
    /// and `• item`.
    pub fn extract_list_items(content: &str) -> (r: Vec<String>)
        ensures
            texts_view(r@) == list_items(content@),
    {
        let chars = chars_of(content);
        let lines = lines_of(chars.as_slice());
        let ghost views = slices_view(lines@);
        let mut r: Vec<String> = Vec::new();
        let mut i: usize = 0;
        assert(texts_view(r@) =~= Seq::empty());
        while i < lines.len()
            invariant
                i <= lines.len(),
                views == slices_view(lines@),
                texts_view(r@) == items_in(views.take(i as int)),
            decreases lines.len() - i,
        {
            assert(views.take(i + 1).drop_last() =~= views.take(i as int));
            assert(views[i as int] == lines@[i as int]@);
            if let Some(item) = list_item_of(lines[i]) {
                let ghost so_far = texts_view(r@);
                r.push(item);
                assert(texts_view(r@) =~= so_far.push(item@));
            }
            i += 1;
        }
        assert(views.take(views.len() as int) =~= views);
        r
    }

    /// What follows a number and `. ` or `) ` at the start of a line.
    pub fn strip_numbered_prefix(s: &str) -> (r: Option<String>)
        ensures
            opt_text(r) == numbered_item(s@),
    {
        let chars = chars_of(s);
        match numbered_item_of(chars.as_slice()) {
            Some(item) => Some(text_of(item)),
            None => None,
        }
    }

    fn count(&self, session_key: &str) -> (r: usize)
        ensures
            r == count_of(self@, session_key@),
    {
        let ghost views = self@;
        let mut n: usize = 0;
        let mut i: usize = 0;
        while i < self.entries.len()
            invariant
                i <= self.entries.len(),
                n <= i,
                views == self@,
                n == count_of(views.take(i as int), session_key@),
            decreases self.entries.len() - i,
        {
            assert(views.take(i + 1).drop_last() =~= views.take(i as int));
            assert(views[i as int] == self.entries@[i as int]@);
            if same_text(self.entries[i].session.as_str(), session_key) {
                n += 1;
            }
            i += 1;
        }
        assert(views.take(views.len() as int) =~= views);
        n
    }

    fn oldest_of(&self, session_key: &str) -> (r: Option<usize>)
        ensures
            match r {
                Some(i) => oldest(self@, session_key@) == Some(i as int) && i < self@.len(),
                None => oldest(self@, session_key@) is None,
            },
    {
        let ghost views = self@;
        let mut best: Option<usize> = None;
        let mut i: usize = 0;
        while i < self.entries.len()
            invariant
                i <= self.entries.len(),
                views == self@,
                match best {
                    Some(k) => oldest(views.take(i as int), session_key@) == Some(k as int) && k
                        < i,
                    None => oldest(views.take(i as int), session_key@) is None,
                },
            decreases self.entries.len() - i,
        {
            assert(views.take(i + 1).drop_last() =~= views.take(i as int));
            assert(views[i as int] == self.entries@[i as int]@);
            if same_text(self.entries[i].session.as_str(), session_key) {
                match best {
                    None => {
                        best = Some(i);
                    },
                    Some(k) => {
                        assert(views[k as int] == self.entries@[k as int]@);
                        if self.entries[i].created_at < self.entries[k].created_at {
                            best = Some(i);
                        }
                    },
                }
            }
            i += 1;
        }
        assert(views.take(views.len() as int) =~= views);
        best
    }

    /// Keeps an answer aside under the given id and returns the stub that stands for it; nothing
    /// where the answer is not worth it.
    pub fn cache_as(&mut self, session_key: &str, content: &str, ref_id: &str, now: i64) -> (r:
        Option<String>)
        ensures
            cache_ok(final(self)@),
            kept_aside(
                opt_text(r),
                old(self)@,
                final(self)@,
                EntryView {
                    session: session_key@,
                    ref_id: ref_id@,
                    content: content@,
                    created_at: now as int,
                },
            ),
    {
        proof {
            use_type_invariant(&*self);
        }
        if !Self::is_cacheable(content) {
            return None;
        }
        let items = Self::extract_list_items(content);
        if items.len() < 5 {
            return None;
        }
        let stub = stub_text_of(&items, ref_id);
        let entry = CacheEntry {
            session: session_key.to_owned(),
            ref_id: ref_id.to_owned(),
            content: content.to_owned(),
            created_at: now,
        };
        let ghost start = self@;
        proof {
            law_stored_is_found(start, entry@);
            lemma_oldest(start, session_key@);
        }
        let oldest_entry = if self.count(session_key) >= MAX_PER_SESSION {
            self.oldest_of(session_key)
        } else {
            None
        };
        let mut entries: Vec<CacheEntry> = Vec::new();
        assert(entries_view(entries@) =~= Seq::empty());
        std::mem::swap(&mut entries, &mut self.entries);
        if let Some(i) = oldest_entry {
            entries.remove(i);
            assert(entries_view(entries@) =~= start.remove(i as int));
        }
        let ghost room = entries_view(entries@);
        assert(room == with_room(start, session_key@));
        match position_in(&entries, session_key, ref_id) {
            Some(i) => {
                entries.set(i, entry);
                assert(entries_view(entries@) =~= room.update(i as int, entry@));
            },
            None => {
                entries.push(entry);
                assert(entries_view(entries@) =~= room.push(entry@));
            },
        }
        self.entries = entries;
        Some(stub)
    }

    /// Keeps a long list answer aside under a fresh id and returns the stub that stands for it;
    /// nothing where the answer is not worth it.
    pub fn maybe_cache_and_stub(&mut self, session_key: &str, content: &str) -> (r: Option<String>)
        ensures
            cache_ok(final(self)@),
            exists|hash: u64, now: i64|
                #[trigger] kept_aside(
                    opt_text(r),
                    old(self)@,
                    final(self)@,
                    EntryView {
                        session: session_key@,
                        ref_id: hex(hash as nat, 8),
                        content: content@,
                        created_at: now as int,
                    },
                ),
    {
        let ref_id = Self::generate_ref_id(session_key);
        let now = now_seconds();
        self.cache_as(session_key, content, ref_id.as_str(), now)
    }

    /// A fresh id of eight hexadecimal digits.
    pub fn generate_ref_id(session_key: &str) -> (r: String)
        ensures
            exists|hash: u64| r@ == #[trigger] hex(hash as nat, 8),
    {
        let hash = key_hash(session_key, now_nanos());
        ref_id_of(hash)
    }

    /// The answer kept under an id, which may be written with the prefix `ref:`.
    pub fn recall(&self, session_key: &str, ref_id: &str) -> (r: Option<String>)
        ensures
            opt_text(r) == found(self@, session_key@, bare_id(ref_id@)),
    {
        let chars = chars_of(ref_id);
        let id = match strip_prefix_chars(chars.as_slice(), "ref:") {
            Some(id) => text_of(id),
            None => ref_id.to_owned(),
        };
        match position_in(&self.entries, session_key, id.as_str()) {
            Some(i) => {
                assert(self@[i as int] == self.entries@[i as int]@);
                Some(self.entries[i].content.clone())
            },
            None => None,
        }
    }

    /// Forgets all answers of a session.
    pub fn clear_session(&mut self, session_key: &str)
        ensures
            final(self)@ == others(old(self)@, session_key@),
            cache_ok(final(self)@),
    {
        proof {
            use_type_invariant(&*self);
            law_cleared_is_gone(self@, session_key@);
        }
        let ghost views = self@;
        let mut kept: Vec<CacheEntry> = Vec::new();
        let mut i: usize = 0;
        assert(entries_view(kept@) =~= Seq::empty());
        while i < self.entries.len()
            invariant
                i <= self.entries.len(),
                views == self@,
                entries_view(kept@) == others(views.take(i as int), session_key@),
            decreases self.entries.len() - i,
        {
            assert(views.take(i + 1).drop_last() =~= views.take(i as int));
            assert(views[i as int] == self.entries@[i as int]@);
            if !same_text(self.entries[i].session.as_str(), session_key) {
                let ghost so_far = entries_view(kept@);
                let entry = &self.entries[i];
                let copy = CacheEntry {
                    session: entry.session.clone(),
                    ref_id: entry.ref_id.clone(),
                    content: entry.content.clone(),
                    created_at: entry.created_at,
                };
                kept.push(copy);
                assert(entries_view(kept@) =~= so_far.push(copy@));
            }
            i += 1;
        }
        assert(views.take(views.len() as int) =~= views);
        self.entries = kept;
    }

    /// What a recall says, as a JSON object.
    pub fn recall_value(&self, session_key: &str, ref_id: &str) -> (r: Json)
        ensures
            r@ == recall_answer(ref_id@, found(self@, session_key@, bare_id(ref_id@))),
    {
        match self.recall(session_key, ref_id) {
            Some(content) => object3(
                "content",
                Json::Str(content),
                "ref_id",
                Json::text(ref_id),
                "status",
                Json::text("found"),
            ),
            None => object3(
                "error",
                Json::text("未找到对应的缓存内容，可能已过期或 ID 不正确"),
                "ref_id",
                Json::text(ref_id),
                "status",
                Json::text("not_found"),
            ),
        }
    }

    /// What a recall says, as JSON text.
    pub fn recall_json(&self, session_key: &str, ref_id: &str) -> (r: String)
        ensures
            r@ == json_text(
                recall_answer(ref_id@, found(self@, session_key@, bare_id(ref_id@))),
            ),
    {
        render(&self.recall_value(session_key, ref_id))
    }
}

pub open spec fn recall_answer(ref_id: Seq<char>, content: Option<Seq<char>>) -> JsonView {
    match content {
        Some(text) => JsonView::Object(
            seq![
                ("content"@, JsonView::Str(text)),
                ("ref_id"@, JsonView::Str(ref_id)),
                ("status"@, JsonView::Str("found"@)),
            ],
        ),
        None => JsonView::Object(
            seq![
                ("error"@, JsonView::Str("未找到对应的缓存内容，可能已过期或 ID 不正确"@)),
                ("ref_id"@, JsonView::Str(ref_id)),
                ("status"@, JsonView::Str("not_found"@)),
            ],
        ),
    }
}

impl Default for ResponseCache {
    fn default() -> (r: Self)
        ensures
            r@ == Seq::<EntryView>::empty(),
    {
        ResponseCache::new()
    }
}

} // verus!
