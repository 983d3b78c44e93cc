//! The messages that are worked on at the same time, and tasks in the background.

use crate::delivery::{agent_name, agent_name_of};
use crate::json::push_member;
use crate::messages::{outbound, InboundMessage, OutboundMessage, OutboundView};
use crate::mid_loop::{cut_with_dots, with_dots};
use crate::paths::opt_str;
use crate::text::{copy_opt, decimal, opt_text, same_text};
use crate::text_map::{find_pair, pairs_map, without_pair};
use crate::value::{group_json_view, Json, JsonView};
use vstd::prelude::*;

verus! {

broadcast use group_json_view;

// ---------------------------------------------------------------------------
// Messages that are worked on
// ---------------------------------------------------------------------------

pub open spec fn texts_set(texts: Seq<String>) -> Set<Seq<char>>
    decreases texts.len(),
{
    if texts.len() == 0 {
        Set::empty()
    } else {
        texts_set(texts.drop_last()).insert(texts.last()@)
    }
}

/// The tasks: which one works on the latest message of each chat, and which are running.
pub struct ActiveView {
    pub chats: Map<Seq<char>, Seq<char>>,
    pub running: Set<Seq<char>>,
}

/// The running task of a chat.
pub open spec fn running_in(active: ActiveView, chat: Seq<char>) -> Option<Seq<char>> {
    if active.chats.contains_key(chat) && active.running.contains(active.chats[chat]) {
        Some(active.chats[chat])
    } else {
        None
    }
}

pub open spec fn not_running(active: ActiveView, task: Option<Seq<char>>) -> Set<Seq<char>> {
    match task {
        Some(t) => active.running.remove(t),
        None => active.running,
    }
}

/// The tasks once the one of a chat was stopped.
pub open spec fn stopped(active: ActiveView, chat: Seq<char>) -> ActiveView {
    ActiveView {
        chats: active.chats.remove(chat),
        running: not_running(active, running_in(active, chat)),
    }
}

/// The tasks once a new one works on a chat in place of the one before.
pub open spec fn started(active: ActiveView, chat: Seq<char>, task: Seq<char>) -> ActiveView {
    ActiveView {
        chats: stopped(active, chat).chats.insert(chat, task),
        running: stopped(active, chat).running.insert(task),
    }
}

/// The tasks once one has ended.
pub open spec fn finished(active: ActiveView, chat: Seq<char>, task: Seq<char>) -> ActiveView {
    ActiveView {
        chats: if active.chats.contains_key(chat) && active.chats[chat] == task {
            active.chats.remove(chat)
        } else {
            active.chats
        },
        running: active.running.remove(task),
    }
}

/// Each chat's task is running, and no two chats share one.
pub open spec fn one_each(active: ActiveView) -> bool {
    &&& forall|c: Seq<char>| #[trigger]
        active.chats.contains_key(c) ==> active.running.contains(active.chats[c])
    &&& forall|c: Seq<char>, d: Seq<char>|
        #![trigger active.chats.contains_key(c), active.chats.contains_key(d)]
        active.chats.contains_key(c) && active.chats.contains_key(d) && active.chats[c]
            == active.chats[d] ==> c == d
}

/// A new task is the running one of its chat, and the one before is running no more.
pub proof fn law_start_replaces(active: ActiveView, chat: Seq<char>, task: Seq<char>)
    requires
        one_each(active),
        !active.running.contains(task),
    ensures
        one_each(started(active, chat, task)),
        running_in(started(active, chat, task), chat) == Some(task),
        running_in(active, chat) is Some ==> !started(active, chat, task).running.contains(
            running_in(active, chat)->0,
        ),
        forall|d: Seq<char>|
            d != chat ==> #[trigger] running_in(started(active, chat, task), d) == running_in(
                active,
                d,
            ),
{
    let now = started(active, chat, task);
    assert forall|d: Seq<char>| d != chat implies #[trigger] running_in(now, d) == running_in(
        active,
        d,
    ) by {
        if active.chats.contains_key(d) {
            assert(now.chats[d] == active.chats[d]);
            if active.chats.contains_key(chat) {
                assert(active.chats[d] != active.chats[chat]);
            }
        }
    }
    assert forall|c: Seq<char>| #[trigger] now.chats.contains_key(c) implies now.running.contains(
        now.chats[c],
    ) by {
        if c != chat {
            assert(active.chats.contains_key(c));
            if active.chats.contains_key(chat) {
                assert(active.chats[c] != active.chats[chat]);
            }
        }
    }
    assert forall|c: Seq<char>, d: Seq<char>|
        #![trigger now.chats.contains_key(c), now.chats.contains_key(d)]
        now.chats.contains_key(c) && now.chats.contains_key(d) && now.chats[c]
            == now.chats[d] implies c == d by {
        if c != chat {
            assert(active.chats.contains_key(c));
        }
        if d != chat {
            assert(active.chats.contains_key(d));
        }
    }
}

/// Once a task of a chat has ended it is running no more; the other chats keep theirs, and so does
/// the chat where a newer task works on it.
pub proof fn law_end_keeps_the_others(active: ActiveView, chat: Seq<char>, task: Seq<char>)
    requires
        one_each(active),
        forall|d: Seq<char>| #[trigger]
            active.chats.contains_key(d) && active.chats[d] == task ==> d == chat,
    ensures
        one_each(finished(active, chat, task)),
        !finished(active, chat, task).running.contains(task),
        running_in(active, chat) == Some(task) ==> running_in(
            finished(active, chat, task),
            chat,
        ) is None,
        running_in(active, chat) != Some(task) ==> running_in(finished(active, chat, task), chat)
            == running_in(active, chat),
        forall|d: Seq<char>|
            d != chat ==> #[trigger] running_in(finished(active, chat, task), d) == running_in(
                active,
                d,
            ),
{
    let now = finished(active, chat, task);
    assert forall|c: Seq<char>| #[trigger] now.chats.contains_key(c) implies now.running.contains(
        now.chats[c],
    ) by {
        assert(active.chats.contains_key(c));
    }
    assert forall|d: Seq<char>| d != chat implies #[trigger] running_in(now, d) == running_in(
        active,
        d,
    ) by {
        if active.chats.contains_key(d) {
            assert(active.chats[d] != task);
        }
    }
    assert forall|c: Seq<char>, d: Seq<char>|
        #![trigger now.chats.contains_key(c), now.chats.contains_key(d)]
        now.chats.contains_key(c) && now.chats.contains_key(d) && now.chats[c]
            == now.chats[d] implies c == d by {
        assert(active.chats.contains_key(c) && active.chats.contains_key(d));
    }
}

/// After a chat was stopped it has no task; the other chats keep theirs.
pub proof fn law_stop_ends_one(active: ActiveView, chat: Seq<char>)
    requires
        one_each(active),
    ensures
        one_each(stopped(active, chat)),
        running_in(stopped(active, chat), chat) is None,
        forall|d: Seq<char>|
            d != chat ==> #[trigger] running_in(stopped(active, chat), d) == running_in(
                active,
                d,
            ),
{
    let now = stopped(active, chat);
    assert forall|c: Seq<char>| #[trigger] now.chats.contains_key(c) implies now.running.contains(
        now.chats[c],
    ) by {
        assert(active.chats.contains_key(c));
        if active.chats.contains_key(chat) {
            assert(active.chats[c] != active.chats[chat]);
        }
    }
    assert forall|d: Seq<char>| d != chat implies #[trigger] running_in(now, d) == running_in(
        active,
        d,
    ) by {
        if active.chats.contains_key(d) {
            assert(now.chats.contains_key(d));
        }
    }
    assert forall|c: Seq<char>, d: Seq<char>|
        #![trigger now.chats.contains_key(c), now.chats.contains_key(d)]
        now.chats.contains_key(c) && now.chats.contains_key(d) && now.chats[c]
            == now.chats[d] implies c == d by {
        assert(active.chats.contains_key(c) && active.chats.contains_key(d));
    }
}

/// Keeps track of the messages that are worked on.
pub struct ActiveTasks {
    pub chats: Vec<(String, String)>,
    pub running: Vec<String>,
}

impl View for ActiveTasks {
    type V = ActiveView;

    open spec fn view(&self) -> ActiveView {
        ActiveView { chats: pairs_map(self.chats@), running: texts_set(self.running@) }
    }
}

fn is_in(texts: &Vec<String>, text: &str) -> (r: bool)
    ensures
        r == texts_set(texts@).contains(text@),
{
    let mut found = false;
    let mut i: usize = 0;
    while i < texts.len()
        invariant
            i <= texts.len(),
            found == texts_set(texts@.take(i as int)).contains(text@),
        decreases texts.len() - i,
    {
        assert(texts@.take(i + 1).drop_last() =~= texts@.take(i as int));
        if same_text(texts[i].as_str(), text) {
            found = true;
        }
        i += 1;
    }
    assert(texts@.take(texts@.len() as int) =~= texts@);
    found
}

fn without_text(texts: &Vec<String>, text: &str) -> (r: Vec<String>)
    ensures
        texts_set(r@) == texts_set(texts@).remove(text@),
{
    let mut r: Vec<String> = Vec::new();
    let mut i: usize = 0;
    assert(texts_set(r@) =~= texts_set(texts@.take(0)).remove(text@));
    while i < texts.len()
        invariant
            i <= texts.len(),
            texts_set(r@) == texts_set(texts@.take(i as int)).remove(text@),
        decreases texts.len() - i,
    {
        assert(texts@.take(i + 1).drop_last() =~= texts@.take(i as int));
        if !same_text(texts[i].as_str(), text) {
            let ghost kept = r@;
            r.push(texts[i].clone());
            assert(r@.drop_last() =~= kept);
        }
        assert(texts_set(r@) =~= texts_set(texts@.take(i + 1)).remove(text@));
        i += 1;
    }
    assert(texts@.take(texts@.len() as int) =~= texts@);
    r
}

impl ActiveTasks {
    pub fn new() -> (r: Self)
        ensures
            r@ == (ActiveView { chats: Map::empty(), running: Set::empty() }),
            one_each(r@),
    {
        ActiveTasks { chats: Vec::new(), running: Vec::new() }
    }

    /// Stops the task of a chat, and returns it where one was running.
    pub fn cancel(&mut self, chat_id: &str) -> (r: Option<String>)
        ensures
            opt_text(r) == running_in(old(self)@, chat_id@),
            final(self)@ == stopped(old(self)@, chat_id@),
    {
        let ghost before = self@;
        let task = find_pair(&self.chats, chat_id);
        let chats = without_pair(&self.chats, chat_id);
        self.chats = chats;
        if let Some(task) = task {
            if is_in(&self.running, task.as_str()) {
                let running = without_text(&self.running, task.as_str());
                self.running = running;
                return Some(task);
            }
        }
        assert(self@.chats =~= before.chats.remove(chat_id@));
        None
    }

    /// Starts a task on a chat, and returns the one that it takes the place of.
    pub fn start(&mut self, chat_id: &str, task_id: &str) -> (r: Option<String>)
        ensures
            opt_text(r) == running_in(old(self)@, chat_id@),
            final(self)@ == started(old(self)@, chat_id@, task_id@),
    {
        let stopped_task = self.cancel(chat_id);
        let ghost chats = self.chats@;
        let ghost running = self.running@;
        self.chats.push((chat_id.to_owned(), task_id.to_owned()));
        self.running.push(task_id.to_owned());
        assert(self.chats@.drop_last() =~= chats);
        assert(self.running@.drop_last() =~= running);
        stopped_task
    }

    /// Takes note that a task has ended.
    pub fn done(&mut self, task_id: &str, chat_id: &str)
        ensures
            final(self)@ == finished(old(self)@, chat_id@, task_id@),
    {
        let running = without_text(&self.running, task_id);
        self.running = running;
        if let Some(task) = find_pair(&self.chats, chat_id) {
            if same_text(task.as_str(), task_id) {
                let chats = without_pair(&self.chats, chat_id);
                self.chats = chats;
            }
        }
    }

    /// Stops all tasks, and returns those that were running.
    pub fn abort_all(&mut self) -> (r: Vec<String>)
        ensures
            texts_set(r@) == old(self)@.running,
            final(self)@ == (ActiveView { chats: Map::empty(), running: Set::empty() }),
    {
        let mut all: Vec<String> = Vec::new();
        std::mem::swap(&mut all, &mut self.running);
        self.chats = Vec::new();
        all
    }
}

/// The label of the task that works on a message.
pub fn message_label(content: &str) -> (r: String)
    ensures
        r@ == with_dots(content@, 40),
{
    cut_with_dots(content, 40)
}

/// The event that the work on a chat was stopped.
pub open spec fn stopped_event(agent_id: Option<Seq<char>>, chat_id: Seq<char>) -> JsonView {
    JsonView::Object(
        seq![
            ("agent_id"@, JsonView::Str(agent_name(agent_id))),
            ("chat_id"@, JsonView::Str(chat_id)),
            ("content"@, JsonView::Str("⏹️ 当前对话已终止"@)),
            ("duration_ms"@, JsonView::Number(decimal(0))),
            ("task_id"@, JsonView::Str(""@)),
            ("tool_calls"@, JsonView::Number(decimal(0))),
            ("type"@, JsonView::Str("message_done"@)),
        ],
    )
}

pub fn cancelled_event(agent_id: Option<&str>, chat_id: &str) -> (r: Json)
    ensures
        r@ == stopped_event(opt_str(agent_id), chat_id@),
{
    let mut m: Vec<(String, Json)> = Vec::new();
    push_member(&mut m, "agent_id", Json::Str(agent_name_of(agent_id)));
    push_member(&mut m, "chat_id", Json::text(chat_id));
    push_member(&mut m, "content", Json::text("⏹️ 当前对话已终止"));
    push_member(&mut m, "duration_ms", Json::number(0));
    push_member(&mut m, "task_id", Json::text(""));
    push_member(&mut m, "tool_calls", Json::number(0));
    push_member(&mut m, "type", Json::text("message_done"));
    let r = Json::Object(m);
    assert(r@->Object_0 =~= stopped_event(opt_str(agent_id), chat_id@)->Object_0);
    r
}

/// The message that tells the user that the work on their message failed.
pub fn failure_notice(msg: &InboundMessage, error: &str) -> (r: OutboundMessage)
    ensures
        r@ == (OutboundView {
            account_id: msg@.account_id,
            ..outbound(msg@.channel, msg@.chat_id, "❌ "@ + error@)
        }),
{
    let mut text = "❌ ".to_owned();
    text.push_str(error);
    let mut r = OutboundMessage::new(
        msg.channel.as_str(),
        msg.chat_id.as_str(),
        text.as_str(),
    );
    r.account_id = copy_opt(&msg.account_id);
    r
}

/// `n`, or the nearest of the bounds.
pub fn clamp_secs(n: u64, low: u64, high: u64) -> (r: u64)
    requires
        low <= high,
    ensures
        r == (if n < low {
            low
        } else if n > high {
            high
        } else {
            n
        }),
{
    if n < low {
        low
    } else if n > high {
        high
    } else {
        n
    }
}

// ---------------------------------------------------------------------------
// Missing capabilities
// ---------------------------------------------------------------------------

/// How long a capability is not asked for again: a day.
pub const COOLDOWN_SECS: i64 = 86400;

pub open spec fn times_map(times: Seq<(String, i64)>) -> Map<Seq<char>, int>
    decreases times.len(),
{
    if times.len() == 0 {
        Map::empty()
    } else {
        times_map(times.drop_last()).insert(times.last().0@, times.last().1 as int)
    }
}

/// The capability was not asked for within the last day.
pub open spec fn due(times: Map<Seq<char>, int>, capability: Seq<char>, now: int) -> bool {
    times.contains_key(capability) ==> now - times[capability] >= COOLDOWN_SECS
}

/// A request: the capability, and why it is needed.
pub struct CapabilityRequest {
    pub capability: String,
    pub description: String,
}

pub open spec fn request_view(skill: Seq<char>, capability: Seq<char>) -> (Seq<char>, Seq<char>) {
    (capability, "Auto-requested: required by skill '"@ + skill + "'"@)
}

/// The requests for what is missing, and when each capability was last asked for. A capability is
/// asked for at most once a day, however many skills miss it.
pub open spec fn requests(
    times: Map<Seq<char>, int>,
    missing: Seq<(Seq<char>, Seq<char>)>,
    now: int,
) -> (Map<Seq<char>, int>, Seq<(Seq<char>, Seq<char>)>)
    decreases missing.len(),
{
    if missing.len() == 0 {
        (times, Seq::empty())
    } else {
        let (so_far, list) = requests(times, missing.drop_last(), now);
        let (skill, capability) = missing.last();
        if due(so_far, capability, now) {
            (so_far.insert(capability, now), list.push(request_view(skill, capability)))
        } else {
            (so_far, list)
        }
    }
}

pub open spec fn requests_view(list: Seq<CapabilityRequest>) -> Seq<(Seq<char>, Seq<char>)> {
    list.map_values(|r: CapabilityRequest| (r.capability@, r.description@))
}

pub open spec fn pairs_view(list: Seq<(String, String)>) -> Seq<(Seq<char>, Seq<char>)> {
    list.map_values(|p: (String, String)| (p.0@, p.1@))
}

/// When each capability was last asked for.
pub struct CapabilityCooldown {
    pub times: Vec<(String, i64)>,
}

impl CapabilityCooldown {
    pub fn new() -> (r: Self)
        ensures
            times_map(r.times@) == Map::<Seq<char>, int>::empty(),
    {
        CapabilityCooldown { times: Vec::new() }
    }

    fn is_due(&self, capability: &str, now: i64) -> (r: bool)
        ensures
            r == due(times_map(self.times@), capability@, now as int),
    {
        let mut last: Option<i64> = None;
        let mut i: usize = 0;
        while i < self.times.len()
            invariant
                i <= self.times.len(),
                match last {
                    Some(t) => times_map(self.times@.take(i as int)).contains_key(capability@)
                        && times_map(self.times@.take(i as int))[capability@] == t,
                    None => !times_map(self.times@.take(i as int)).contains_key(capability@),
                },
            decreases self.times.len() - i,
        {
            assert(self.times@.take(i + 1).drop_last() =~= self.times@.take(i as int));
            if same_text(self.times[i].0.as_str(), capability) {
                last = Some(self.times[i].1);
            }
            i += 1;
        }
        assert(self.times@.take(self.times@.len() as int) =~= self.times@);
        match last {
            Some(t) => now as i128 - t as i128 >= COOLDOWN_SECS as i128,
            None => true,
        }
    }

    /// The requests for what is missing at the time `now`. A pair is a skill and a capability
    /// that it needs.
    pub fn due_requests(&mut self, missing: &Vec<(String, String)>, now: i64) -> (r: Vec<
        CapabilityRequest,
    >)
        ensures
            (times_map(final(self).times@), requests_view(r@)) == requests(
                times_map(old(self).times@),
                pairs_view(missing@),
                now as int,
            ),
    {
        let ghost start = times_map(self.times@);
        let ghost views = pairs_view(missing@);
        let mut r: Vec<CapabilityRequest> = Vec::new();
        let mut i: usize = 0;
        assert(requests_view(r@) =~= Seq::empty());
        while i < missing.len()
            invariant
                i <= missing.len(),
                views == pairs_view(missing@),
                (times_map(self.times@), requests_view(r@)) == requests(
                    start,
                    views.take(i as int),
                    now as int,
                ),
            decreases missing.len() - i,
        {
            assert(views.take(i + 1).drop_last() =~= views.take(i as int));
            assert(views[i as int] == (missing@[i as int].0@, missing@[i as int].1@));
            if self.is_due(missing[i].1.as_str(), now) {
                let ghost times = self.times@;
                self.times.push((missing[i].1.clone(), now));
                assert(self.times@.drop_last() =~= times);
                let mut description = "Auto-requested: required by skill '".to_owned();
                description.push_str(missing[i].0.as_str());
                description.push_str("'");
                let request = CapabilityRequest { capability: missing[i].1.clone(), description };
                let ghost so_far = requests_view(r@);
                r.push(request);
                assert(requests_view(r@) =~= so_far.push(
                    (request.capability@, request.description@),
                ));
            }
            i += 1;
        }
        assert(views.take(views.len() as int) =~= views);
        r
    }
}

/// What was asked for is not asked for again before a day is over.
pub proof fn law_no_request_within_a_day(
    times: Map<Seq<char>, int>,
    missing: Seq<(Seq<char>, Seq<char>)>,
    now: int,
    later: int,
    again: Seq<(Seq<char>, Seq<char>)>,
)
    requires
        now <= later < now + COOLDOWN_SECS,
        forall|c: Seq<char>| #[trigger] times.contains_key(c) ==> times[c] <= now,
        forall|i: int|
            0 <= i < again.len() ==> exists|j: int|
                0 <= j < missing.len() && (#[trigger] missing[j]).1 == (#[trigger] again[i]).1
                    && due(times, missing[j].1, now),
    ensures
        requests(requests(times, missing, now).0, again, later).1.len() == 0,
    decreases again.len(),
{
    let after = requests(times, missing, now).0;
    if again.len() > 0 {
        let prior = again.drop_last();
        assert forall|i: int| 0 <= i < prior.len() implies exists|j: int|
            0 <= j < missing.len() && (#[trigger] missing[j]).1 == (#[trigger] prior[i]).1 && due(
                times,
                missing[j].1,
                now,
            ) by {
            assert(prior[i] == again[i]);
        }
        law_no_request_within_a_day(times, missing, now, later, prior);
        lemma_requests_unchanged(after, prior, later);
        let (skill, capability) = again.last();
        assert(again[again.len() - 1] == again.last());
        let j = choose|j: int|
            0 <= j < missing.len() && (#[trigger] missing[j]).1 == capability && due(
                times,
                missing[j].1,
                now,
            );
        lemma_requested(times, missing, now, j);
        assert(!due(after, capability, later));
    }
}

proof fn lemma_requests_unchanged(
    times: Map<Seq<char>, int>,
    missing: Seq<(Seq<char>, Seq<char>)>,
    now: int,
)
    requires
        requests(times, missing, now).1.len() == 0,
    ensures
        requests(times, missing, now).0 == times,
    decreases missing.len(),
{
    if missing.len() > 0 {
        let (so_far, list) = requests(times, missing.drop_last(), now);
        let (skill, capability) = missing.last();
        lemma_requests_unchanged(times, missing.drop_last(), now);
    }
}

proof fn lemma_requested(
    times: Map<Seq<char>, int>,
    missing: Seq<(Seq<char>, Seq<char>)>,
    now: int,
    j: int,
)
    requires
        0 <= j < missing.len(),
        due(times, missing[j].1, now),
    ensures
        requests(times, missing, now).0.contains_key(missing[j].1),
        requests(times, missing, now).0[missing[j].1] == now,
    decreases missing.len(),
{
    let prior = missing.drop_last();
    let (so_far, list) = requests(times, prior, now);
    let wanted = missing[j].1;
    if j < prior.len() {
        assert(prior[j] == missing[j]);
        lemma_requested(times, prior, now, j);
    } else {
        lemma_times_or_now(times, prior, now, wanted);
    }
}

proof fn lemma_times_or_now(
    times: Map<Seq<char>, int>,
    missing: Seq<(Seq<char>, Seq<char>)>,
    now: int,
    c: Seq<char>,
)
    ensures
        ({
            let after = requests(times, missing, now).0;
            (after.contains_key(c) && after[c] == now) || (after.contains_key(c)
                == times.contains_key(c) && (times.contains_key(c) ==> after[c] == times[c]))
        }),
    decreases missing.len(),
{
    if missing.len() > 0 {
        lemma_times_or_now(times, missing.drop_last(), now, c);
    }
}

} // verus!
