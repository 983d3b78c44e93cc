//! The run of one tool call: the gates that it passes, the tool, and what follows.

use crate::access::{
    asked_paths, call_paths, extract_paths, facts_view, positions, raw_among, sift, with_confirmed,
    Access, AuthorizedDirs, FactsView, PathFacts,
};
use crate::gate::{
    call_gate, call_result, check_call, check_switches, finish_call, outcome_parts, outcome_text,
    path_denial, path_refusal, runs_danger, should_report_error, switch_refusal, unknown_tool, Gate,
    GateView, Learning, ToolOutcome,
};
use crate::paths::{PathParts, PathView};
use crate::safety::confirms;
use crate::text::texts_view;
use crate::types::{ToolCallRequest, ToolCallView};
use vstd::prelude::*;

verus! {

// ---------------------------------------------------------------------------
// Stages, events and actions
// ---------------------------------------------------------------------------

/// What a call waits for.
pub enum CallStage {
    /// Which tools and skills are switched off.
    Switches,
    /// The user's word on a dangerous operation.
    Consent { refusal: String },
    /// What is known of the paths of the call.
    Places,
    /// The user's word on some of the paths.
    PathConsent { facts: Vec<PathFacts>, asked: Vec<usize>, cache: bool },
    /// The tool.
    Running,
    /// What is learned from the failure of the tool.
    Learning { outcome: ToolOutcome },
    /// Nothing: the call is answered.
    Over,
}

pub enum StageView {
    Switches,
    Consent { refusal: Seq<char> },
    Places,
    PathConsent { facts: Seq<FactsView>, asked: Seq<int>, cache: bool },
    Running,
    Learning { outcome: ToolOutcome },
    Over,
}

impl View for CallStage {
    type V = StageView;

    open spec fn view(&self) -> StageView {
        match *self {
            CallStage::Switches => StageView::Switches,
            CallStage::Consent { refusal } => StageView::Consent { refusal: refusal@ },
            CallStage::Places => StageView::Places,
            CallStage::PathConsent { facts, asked, cache } => StageView::PathConsent {
                facts: facts_view(facts@),
                asked: positions(asked@),
                cache,
            },
            CallStage::Running => StageView::Running,
            CallStage::Learning { outcome } => StageView::Learning { outcome },
            CallStage::Over => StageView::Over,
        }
    }
}

/// What happens to a call.
pub enum CallEvent {
    /// These tools and skills are switched off.
    Switches { tools: Vec<String>, skills: Vec<String> },
    /// The user says yes or no.
    Consent(bool),
    /// The paths of the call lead there; `cache` says whether allowed directories are remembered.
    Places { workspace: PathParts, facts: Vec<PathFacts>, cache: bool },
    /// The tool has run.
    Ran(ToolOutcome),
    /// The failure of the tool was reported.
    Learned(Learning),
}

/// What is to be done next.
pub enum CallAction {
    /// Ask the user to confirm these items.
    Confirm(Vec<String>),
    /// Find out where these paths lead.
    LookUp(Vec<String>),
    /// Run the tool.
    Run,
    /// Report this failure of the tool.
    Report(String),
    /// Answer the call with this text.
    Answer(String),
    /// Nothing: the event is not one that the call waits for.
    Wait,
}

pub enum ActionView {
    Confirm(Seq<Seq<char>>),
    LookUp(Seq<Seq<char>>),
    Run,
    Report(Seq<char>),
    Answer(Seq<char>),
    Wait,
}

impl View for CallAction {
    type V = ActionView;

    open spec fn view(&self) -> ActionView {
        match *self {
            CallAction::Confirm(items) => ActionView::Confirm(texts_view(items@)),
            CallAction::LookUp(paths) => ActionView::LookUp(texts_view(paths@)),
            CallAction::Run => ActionView::Run,
            CallAction::Report(text) => ActionView::Report(text@),
            CallAction::Answer(text) => ActionView::Answer(text@),
            CallAction::Wait => ActionView::Wait,
        }
    }
}

/// A call on its way: the call, whether the user can be asked, what the user's message says, and
/// what the call waits for.
pub struct RunView {
    pub call: ToolCallView,
    pub interactive: bool,
    pub message: Seq<char>,
    pub stage: StageView,
}

pub open spec fn new_run(call: ToolCallView, interactive: bool, message: Seq<char>) -> RunView {
    RunView { call, interactive, message, stage: StageView::Switches }
}

// ---------------------------------------------------------------------------
// Steps
// ---------------------------------------------------------------------------

/// What the danger of a call leads to.
pub open spec fn danger_gate(run: RunView) -> GateView {
    call_gate(run.call, runs_danger(run.call.arguments), run.interactive, confirms(run.message))
}

pub open spec fn look_up(run: RunView) -> (StageView, ActionView) {
    (StageView::Places, ActionView::LookUp(call_paths(run.call.name, run.call.arguments)))
}

pub open spec fn answer(text: Seq<char>) -> (StageView, ActionView) {
    (StageView::Over, ActionView::Answer(text))
}

/// After the switches: the danger of the call decides.
pub open spec fn after_switches(
    run: RunView,
    tools: Seq<Seq<char>>,
    skills: Seq<Seq<char>>,
) -> (StageView, ActionView) {
    match switch_refusal(run.call.name, tools, skills) {
        Some(text) => answer(text),
        None => match danger_gate(run) {
            GateView::Proceed => look_up(run),
            GateView::Refuse(text) => answer(text),
            GateView::Confirm { items, refusal } => (
                StageView::Consent { refusal },
                ActionView::Confirm(items),
            ),
        },
    }
}

/// After the paths were looked up: the call is refused where one of them is denied, or where the
/// user has to be asked about one and cannot be; it runs where they need not be asked.
pub open spec fn after_places(
    run: RunView,
    dirs: Seq<PathView>,
    workspace: PathView,
    facts: Seq<FactsView>,
    cache: bool,
) -> (StageView, ActionView) {
    let sifted = sift(dirs, workspace, facts, cache);
    if sifted.denied {
        answer(path_denial(run.call.name))
    } else if sifted.asked.len() == 0 {
        (StageView::Running, ActionView::Run)
    } else if !run.interactive {
        answer(path_denial(run.call.name))
    } else {
        (
            StageView::PathConsent { facts, asked: sifted.asked, cache },
            ActionView::Confirm(raw_among(facts, sifted.asked)),
        )
    }
}

/// After the tool has run: a failure is reported, unless the tool is unknown.
pub open spec fn after_tool(run: RunView, outcome: ToolOutcome) -> (StageView, ActionView) {
    if outcome is Failed && !unknown_tool(outcome_text(outcome)) {
        (StageView::Learning { outcome }, ActionView::Report(outcome_text(outcome)))
    } else {
        answer(call_result(run.call.name, outcome, Learning::Quiet))
    }
}

pub open spec fn staged(run: RunView, dirs: Seq<PathView>, next: (StageView, ActionView)) -> (
    RunView,
    Seq<PathView>,
    ActionView,
) {
    (RunView { stage: next.0, ..run }, dirs, next.1)
}

/// The call and the authorized directories after an event, and what is to be done next.
pub open spec fn call_step(run: RunView, dirs: Seq<PathView>, event: CallEvent) -> (
    RunView,
    Seq<PathView>,
    ActionView,
) {
    match (run.stage, event) {
        (StageView::Switches, CallEvent::Switches { tools, skills }) => staged(
            run,
            dirs,
            after_switches(run, texts_view(tools@), texts_view(skills@)),
        ),
        (StageView::Consent { refusal }, CallEvent::Consent(yes)) => staged(
            run,
            dirs,
            if yes {
                look_up(run)
            } else {
                answer(refusal)
            },
        ),
        (StageView::Places, CallEvent::Places { workspace, facts, cache }) => staged(
            run,
            sift(dirs, workspace@, facts_view(facts@), cache).dirs,
            after_places(run, dirs, workspace@, facts_view(facts@), cache),
        ),
        (StageView::PathConsent { facts, asked, cache }, CallEvent::Consent(yes)) => staged(
            run,
            if yes && cache {
                with_confirmed(dirs, facts, asked)
            } else {
                dirs
            },
            if yes {
                (StageView::Running, ActionView::Run)
            } else {
                answer(path_denial(run.call.name))
            },
        ),
        (StageView::Running, CallEvent::Ran(outcome)) => staged(
            run,
            dirs,
            after_tool(run, outcome),
        ),
        (StageView::Learning { outcome }, CallEvent::Learned(learning)) => staged(
            run,
            dirs,
            answer(call_result(run.call.name, outcome, learning)),
        ),
        _ => (run, dirs, ActionView::Wait),
    }
}

/// The call and the authorized directories after some events, and all that was to be done.
pub open spec fn call_run(run: RunView, dirs: Seq<PathView>, events: Seq<CallEvent>) -> (
    RunView,
    Seq<PathView>,
    Seq<ActionView>,
)
    decreases events.len(),
{
    if events.len() == 0 {
        (run, dirs, Seq::empty())
    } else {
        let (before, held, actions) = call_run(run, dirs, events.drop_last());
        let (now, kept, action) = call_step(before, held, events.last());
        (now, kept, actions.push(action))
    }
}

// ---------------------------------------------------------------------------
// Laws
// ---------------------------------------------------------------------------

/// The event says that the tool of the call is switched on.
pub open spec fn switched_on(run: RunView, event: CallEvent) -> bool {
    event matches CallEvent::Switches { tools, skills } && switch_refusal(
        run.call.name,
        texts_view(tools@),
        texts_view(skills@),
    ) is None
}

/// The user says yes in one of the events from `from` up to `to`.
pub open spec fn says_yes(events: Seq<CallEvent>, from: int, to: int) -> bool {
    exists|k: int| from <= k < to && #[trigger] events[k] == CallEvent::Consent(true)
}

/// The danger of the call is none, or the user says yes to it between positions `from` and `to`.
pub open spec fn danger_passed(
    run: RunView,
    events: Seq<CallEvent>,
    from: int,
    to: int,
) -> bool {
    danger_gate(run) is Proceed || (danger_gate(run) is Confirm && says_yes(events, from, to))
}

/// The event says that no path of the call is denied; `free` that the user need not be asked.
pub open spec fn none_denied(dirs: Seq<PathView>, event: CallEvent, free: bool) -> bool {
    event matches CallEvent::Places { workspace, facts, cache } && {
        let sifted = sift(dirs, workspace@, facts_view(facts@), cache);
        !sifted.denied && (free ==> sifted.asked.len() == 0)
    }
}

/// The events at `i` and `m`, and the user's word in between and behind, let the call pass: it is
/// switched on, then its danger passes, and then its paths do.
pub open spec fn let_through_at(
    run: RunView,
    dirs: Seq<PathView>,
    events: Seq<CallEvent>,
    i: int,
    m: int,
) -> bool {
    &&& 0 <= i < m < events.len()
    &&& switched_on(run, events[i])
    &&& danger_passed(run, events, i + 1, m)
    &&& none_denied(dirs, events[m], true) || (none_denied(dirs, events[m], false) && says_yes(
        events,
        m + 1,
        events.len() as int,
    ))
}

/// All gates have let the call pass.
pub open spec fn let_through(run: RunView, dirs: Seq<PathView>, events: Seq<CallEvent>) -> bool {
    exists|i: int, m: int| #[trigger] let_through_at(run, dirs, events, i, m)
}

/// A word of the user stays said.
proof fn lemma_says_yes(events: Seq<CallEvent>, from: int, to: int)
    requires
        events.len() > 0,
        0 <= from,
        to <= events.len() - 1,
        says_yes(events.drop_last(), from, to),
    ensures
        says_yes(events, from, to),
        says_yes(events, from, to + 1),
{
    let prior = events.drop_last();
    let k = choose|k: int| from <= k < to && #[trigger] prior[k] == CallEvent::Consent(true);
    assert(events[k] == CallEvent::Consent(true));
}

/// What each stage tells of the events before it, with the positions of the two that count.
proof fn lemma_stages(run: RunView, dirs: Seq<PathView>, events: Seq<CallEvent>) -> (at: (int, int))
    requires
        run.stage is Switches,
    ensures
        ({
            let (now, held, actions) = call_run(run, dirs, events);
            let (i, m) = at;
            let n = events.len() as int;
            &&& now == (RunView { stage: now.stage, ..run })
            &&& now.stage is Switches || now.stage is Consent || now.stage is Places ==> held
                == dirs
            &&& now.stage is Consent ==> {
                &&& 0 <= i < n && switched_on(run, events[i])
                &&& danger_gate(run) is Confirm
            }
            &&& now.stage is Places ==> {
                &&& 0 <= i < n && switched_on(run, events[i])
                &&& danger_passed(run, events, i + 1, n)
            }
            &&& now.stage is PathConsent ==> {
                &&& 0 <= i < m < n && switched_on(run, events[i])
                &&& danger_passed(run, events, i + 1, m)
                &&& none_denied(dirs, events[m], false)
            }
            &&& now.stage is Running || now.stage is Learning ==> let_through_at(
                run,
                dirs,
                events,
                i,
                m,
            )
            &&& actions.len() == n
            &&& n > 0 && actions.last() is Run ==> now.stage is Running
        }),
    decreases events.len(),
{
    if events.len() == 0 {
        (0, 0)
    } else {
        let prior = events.drop_last();
        let (i, m) = lemma_stages(run, dirs, prior);
        let (before, held, _) = call_run(run, dirs, prior);
        let event = events.last();
        let n = events.len() as int;
        assert(events[n - 1] == event);
        assert(forall|k: int| 0 <= k < n - 1 ==> #[trigger] events[k] == prior[k]);
        if before.stage is Places || before.stage is PathConsent {
            let to = if before.stage is Places {
                n - 1
            } else {
                m
            };
            if danger_gate(run) is Confirm {
                lemma_says_yes(events, i + 1, to);
            }
        }
        match (before.stage, event) {
            (StageView::Switches, CallEvent::Switches { .. }) => {
                (n - 1, m)
            },
            (StageView::Consent { .. }, CallEvent::Consent(yes)) => {
                if yes {
                    assert(says_yes(events, i + 1, n));
                }
                (i, m)
            },
            (StageView::Places, CallEvent::Places { .. }) => {
                (i, n - 1)
            },
            (StageView::PathConsent { .. }, CallEvent::Consent(yes)) => {
                if yes {
                    assert(says_yes(events, m + 1, n));
                }
                (i, m)
            },
            _ => {
                if before.stage is Running || before.stage is Learning {
                    if danger_gate(run) is Confirm {
                        lemma_says_yes(events, i + 1, m);
                    }
                    if !none_denied(dirs, events[m], true) {
                        lemma_says_yes(events, m + 1, n - 1);
                    }
                }
                (i, m)
            },
        }
    }
}

/// A tool runs only after all gates have let its call pass: it is switched on, its danger is none
/// or the user has agreed to it, and none of its paths is denied and the user has agreed to those
/// that they were asked about.
pub proof fn law_nothing_runs_unless_let_through(
    call: ToolCallView,
    interactive: bool,
    message: Seq<char>,
    dirs: Seq<PathView>,
    events: Seq<CallEvent>,
)
    requires
        events.len() > 0,
        call_run(new_run(call, interactive, message), dirs, events).2.last() is Run,
    ensures
        let_through(new_run(call, interactive, message), dirs, events),
{
    let (i, m) = lemma_stages(new_run(call, interactive, message), dirs, events);
    assert(let_through_at(new_run(call, interactive, message), dirs, events, i, m));
}

/// Before a stage has run or answered, no action says so; afterwards just one does.
proof fn lemma_once(run: RunView, dirs: Seq<PathView>, events: Seq<CallEvent>)
    requires
        run.stage is Switches,
    ensures
        ({
            let (now, _, actions) = call_run(run, dirs, events);
            &&& actions.len() == events.len()
            &&& now.stage !is Running && now.stage !is Learning && now.stage !is Over
                ==> forall|k: int| 0 <= k < actions.len() ==> !((#[trigger] actions[k]) is Run)
            &&& now.stage !is Over ==> forall|k: int|
                0 <= k < actions.len() ==> !((#[trigger] actions[k]) is Answer)
            &&& now.stage is Over ==> exists|k: int|
                0 <= k < actions.len() && (#[trigger] actions[k]) is Answer
            &&& forall|j: int, k: int|
                0 <= j < k < actions.len() && (#[trigger] actions[j]) is Run ==> !((
                #[trigger] actions[k]) is Run)
            &&& forall|j: int, k: int|
                0 <= j < k < actions.len() && (#[trigger] actions[j]) is Answer ==> (
                #[trigger] actions[k]) is Wait
        }),
    decreases events.len(),
{
    if events.len() > 0 {
        let prior = events.drop_last();
        lemma_once(run, dirs, prior);
        let (before, held, earlier) = call_run(run, dirs, prior);
        let (now, _, actions) = call_run(run, dirs, events);
        let last = actions.len() - 1;
        assert(forall|k: int| 0 <= k < last ==> #[trigger] actions[k] == earlier[k]);
        if now.stage is Over {
            if before.stage is Over {
                let k = choose|k: int|
                    0 <= k < earlier.len() && (#[trigger] earlier[k]) is Answer;
                assert(actions[k] is Answer);
            } else {
                assert(actions[last] is Answer);
            }
        }
    }
}

/// A call runs its tool at most once and is answered at most once, with nothing to be done after
/// the answer; it is over just where it was answered.
pub proof fn law_call_runs_and_answers_once(
    call: ToolCallView,
    interactive: bool,
    message: Seq<char>,
    dirs: Seq<PathView>,
    events: Seq<CallEvent>,
)
    ensures
        ({
            let (now, _, actions) = call_run(new_run(call, interactive, message), dirs, events);
            &&& now.stage is Over <==> exists|k: int|
                0 <= k < actions.len() && (#[trigger] actions[k]) is Answer
            &&& forall|j: int, k: int|
                0 <= j < k < actions.len() && (#[trigger] actions[j]) is Run ==> !((
                #[trigger] actions[k]) is Run)
            &&& forall|j: int, k: int|
                0 <= j < k < actions.len() && (#[trigger] actions[j]) is Answer ==> (
                #[trigger] actions[k]) is Wait
        }),
{
    lemma_once(new_run(call, interactive, message), dirs, events);
}

// ---------------------------------------------------------------------------
// The run
// ---------------------------------------------------------------------------

/// Takes a tool call through its gates and to its answer.
pub struct CallRun {
    pub call: ToolCallRequest,
    pub interactive: bool,
    pub message: String,
    pub stage: CallStage,
}

impl View for CallRun {
    type V = RunView;

    open spec fn view(&self) -> RunView {
        RunView {
            call: self.call@,
            interactive: self.interactive,
            message: self.message@,
            stage: self.stage@,
        }
    }
}

impl CallRun {
    /// A call on its way. `interactive` says whether the user can be asked, `message` is what
    /// they wrote.
    pub fn new(call: ToolCallRequest, interactive: bool, message: &str) -> (r: Self)
        ensures
            r@ == new_run(call@, interactive, message@),
    {
        CallRun { call, interactive, message: message.to_owned(), stage: CallStage::Switches }
    }

    fn look_up(&mut self) -> (r: CallAction)
        ensures
            final(self)@ == (RunView { stage: look_up(old(self)@).0, ..old(self)@ }),
            r@ == look_up(old(self)@).1,
    {
        self.stage = CallStage::Places;
        CallAction::LookUp(extract_paths(self.call.name.as_str(), &self.call.arguments))
    }

    fn answer(&mut self, text: String) -> (r: CallAction)
        ensures
            final(self)@ == (RunView { stage: answer(text@).0, ..old(self)@ }),
            r@ == answer(text@).1,
    {
        self.stage = CallStage::Over;
        CallAction::Answer(text)
    }

    /// Takes in an event, and says what is to be done next.
    pub fn next(&mut self, event: CallEvent, dirs: &mut AuthorizedDirs) -> (r: CallAction)
        ensures
            (final(self)@, final(dirs).views(), r@) == call_step(
                old(self)@,
                old(dirs).views(),
                event,
            ),
    {
        let mut stage = CallStage::Over;
        std::mem::swap(&mut stage, &mut self.stage);
        match (stage, event) {
            (CallStage::Switches, CallEvent::Switches { tools, skills }) => {
                if let Some(text) = check_switches(self.call.name.as_str(), &tools, &skills) {
                    return self.answer(text);
                }
                match check_call(&self.call, self.interactive, self.message.as_str()) {
                    Gate::Proceed => self.look_up(),
                    Gate::Refuse(text) => self.answer(text),
                    Gate::Confirm { items, refusal } => {
                        self.stage = CallStage::Consent { refusal };
                        CallAction::Confirm(items)
                    },
                }
            },
            (CallStage::Consent { refusal }, CallEvent::Consent(yes)) => {
                if yes {
                    self.look_up()
                } else {
                    self.answer(refusal)
                }
            },
            (CallStage::Places, CallEvent::Places { workspace, facts, cache }) => {
                match dirs.check_path_permission(&workspace, &facts, cache) {
                    Access::Refused => self.answer(path_refusal(self.call.name.as_str())),
                    Access::Granted => {
                        self.stage = CallStage::Running;
                        CallAction::Run
                    },
                    Access::Ask(asked) => {
                        if !self.interactive {
                            return self.answer(path_refusal(self.call.name.as_str()));
                        }
                        let items = asked_paths(&facts, &asked);
                        self.stage = CallStage::PathConsent { facts, asked, cache };
                        CallAction::Confirm(items)
                    },
                }
            },
            (CallStage::PathConsent { facts, asked, cache }, CallEvent::Consent(yes)) => {
                if dirs.confirm(&facts, &asked, yes, cache) {
                    self.stage = CallStage::Running;
                    CallAction::Run
                } else {
                    self.answer(path_refusal(self.call.name.as_str()))
                }
            },
            (CallStage::Running, CallEvent::Ran(outcome)) => {
                if should_report_error(&outcome) {
                    let (text, value) = outcome_parts(&outcome);
                    self.stage = CallStage::Learning { outcome };
                    CallAction::Report(text)
                } else {
                    let text = finish_call(self.call.name.as_str(), &outcome, Learning::Quiet);
                    self.answer(text)
                }
            },
            (CallStage::Learning { outcome }, CallEvent::Learned(learning)) => {
                let text = finish_call(self.call.name.as_str(), &outcome, learning);
                self.answer(text)
            },
            (stage, _) => {
                self.stage = stage;
                CallAction::Wait
            },
        }
    }
}

} // verus!
