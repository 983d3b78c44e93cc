//! Asking a model, again where it cannot be reached.

use crate::error::{Error, ErrorView};
use crate::reply::{
    complete, cut_short, doubled, retry_delay, retry_delay_ms, Reply, ReplyView,
};
use crate::text::{decimal, decimal_text};
use crate::types::{LLMResponse, ResponseView};
use vstd::prelude::*;

verus! {

pub const NO_MODEL: &'static str = "ProviderPool: no healthy providers available";

/// A question to a model: how often it was put again, and how the last try failed.
pub struct Asking {
    retries: u32,
    base_ms: u64,
    attempt: u32,
    error: Option<Error>,
}

pub struct AskingView {
    pub retries: nat,
    pub base_ms: nat,
    pub attempt: nat,
    pub error: Option<ErrorView>,
}

pub open spec fn error_opt(error: Option<Error>) -> Option<ErrorView> {
    match error {
        Some(e) => Some(e@),
        None => None,
    }
}

pub open spec fn response_opt(response: Option<LLMResponse>) -> Option<ResponseView> {
    match response {
        Some(r) => Some(r@),
        None => None,
    }
}

impl View for Asking {
    type V = AskingView;

    closed spec fn view(&self) -> AskingView {
        AskingView {
            retries: self.retries as nat,
            base_ms: self.base_ms as nat,
            attempt: self.attempt as nat,
            error: error_opt(self.error),
        }
    }
}

/// No wait is longer than what can be counted.
pub open spec fn waits_fit(retries: nat, base_ms: nat) -> bool {
    retries > 0 ==> retry_delay(base_ms, retries) <= u64::MAX
}

pub open spec fn asking_ok(asking: AskingView) -> bool {
    asking.attempt <= asking.retries && waits_fit(asking.retries, asking.base_ms)
}

/// What came of a try.
pub enum AskEvent {
    /// There is no model that can be asked.
    NoModel,
    /// The model could not be reached.
    Unreached(Error),
    /// The reply came to its end: with an answer, with what went wrong, or with neither.
    Ended(Option<LLMResponse>, Option<Error>),
}

pub enum AskEventView {
    NoModel,
    Unreached(ErrorView),
    Ended(Option<ResponseView>, Option<ErrorView>),
}

impl View for AskEvent {
    type V = AskEventView;

    open spec fn view(&self) -> AskEventView {
        match *self {
            AskEvent::NoModel => AskEventView::NoModel,
            AskEvent::Unreached(e) => AskEventView::Unreached(e@),
            AskEvent::Ended(response, error) => AskEventView::Ended(
                response_opt(response),
                error_opt(error),
            ),
        }
    }
}

// ---------------------------------------------------------------------------
// The end of a reply
// ---------------------------------------------------------------------------

/// How long a model may stay silent in the middle of a reply.
pub const SILENCE_SECS: u64 = 300;

/// How a reply came to its end.
pub enum Ending {
    /// The model said that it is complete.
    Done(LLMResponse),
    /// The model reported an error.
    Broken(String),
    /// Nothing more can come.
    Closed,
    /// Nothing came for too long.
    Silent,
}

/// What was collected counts as an answer once the model has said that it is complete, or where
/// it holds calls.
pub open spec fn reply_end(reply: ReplyView, ending: Ending) -> AskEventView {
    match ending {
        Ending::Done(response) => AskEventView::Ended(Some(complete(reply, response@)), None),
        Ending::Broken(message) => AskEventView::Ended(
            cut_short(reply),
            Some(ErrorView::Provider(message@)),
        ),
        Ending::Closed => AskEventView::Ended(cut_short(reply), None),
        Ending::Silent => AskEventView::Ended(
            cut_short(reply),
            Some(
                ErrorView::Provider(
                    "Stream timeout after "@ + decimal(SILENCE_SECS as nat) + " seconds"@,
                ),
            ),
        ),
    }
}

impl Reply {
    /// What came of the try, once the reply has ended.
    pub fn end(&self, ending: Ending) -> (r: AskEvent)
        ensures
            r@ == reply_end(self@, ending),
    {
        match ending {
            Ending::Done(response) => AskEvent::Ended(Some(self.finish(&response)), None),
            Ending::Broken(message) => AskEvent::Ended(
                self.cut_off(),
                Some(Error::Provider(message)),
            ),
            Ending::Closed => AskEvent::Ended(self.cut_off(), None),
            Ending::Silent => {
                let mut text = "Stream timeout after ".to_owned();
                text.push_str(decimal_text(SILENCE_SECS).as_str());
                text.push_str(" seconds");
                AskEvent::Ended(self.cut_off(), Some(Error::Provider(text)))
            },
        }
    }
}

// ---------------------------------------------------------------------------
// The next step
// ---------------------------------------------------------------------------

/// What is done next.
pub enum AskStep {
    /// The model is asked again after a wait.
    Again { asking: Asking, wait_ms: u64 },
    Answer(LLMResponse),
    /// Nothing is known of the failure where a first reply ended without a word.
    GiveUp(Option<Error>),
}

pub enum AskStepView {
    Again { asking: AskingView, wait_ms: nat },
    Answer(ResponseView),
    GiveUp(Option<ErrorView>),
}

impl View for AskStep {
    type V = AskStepView;

    open spec fn view(&self) -> AskStepView {
        match *self {
            AskStep::Again { asking, wait_ms } => AskStepView::Again {
                asking: asking@,
                wait_ms: wait_ms as nat,
            },
            AskStep::Answer(response) => AskStepView::Answer(response@),
            AskStep::GiveUp(error) => AskStepView::GiveUp(error_opt(error)),
        }
    }
}

/// A model that could not be reached is asked again as long as tries are left. A reply that has
/// begun is not asked for again.
pub open spec fn ask_step(asking: AskingView, event: AskEventView) -> AskStepView {
    match event {
        AskEventView::NoModel => AskStepView::GiveUp(Some(ErrorView::Config(NO_MODEL@))),
        AskEventView::Unreached(error) => if asking.attempt < asking.retries {
            AskStepView::Again {
                asking: AskingView { attempt: asking.attempt + 1, error: Some(error), ..asking },
                wait_ms: retry_delay(asking.base_ms, asking.attempt + 1),
            }
        } else {
            AskStepView::GiveUp(Some(error))
        },
        AskEventView::Ended(Some(response), _) => AskStepView::Answer(response),
        AskEventView::Ended(None, Some(error)) => AskStepView::GiveUp(Some(error)),
        AskEventView::Ended(None, None) => AskStepView::GiveUp(asking.error),
    }
}

proof fn lemma_delays_grow(base_ms: nat, a: nat, b: nat)
    requires
        1 <= a <= b,
    ensures
        retry_delay(base_ms, a) <= retry_delay(base_ms, b),
{
    reveal_with_fuel(doubled, 6);
}

impl Asking {
    #[verifier::type_invariant]
    spec fn in_order(self) -> bool {
        asking_ok(self@)
    }

    pub fn new(retries: u32, base_ms: u64) -> (r: Self)
        requires
            waits_fit(retries as nat, base_ms as nat),
        ensures
            r@ == (AskingView {
                retries: retries as nat,
                base_ms: base_ms as nat,
                attempt: 0,
                error: None,
            }),
            asking_ok(r@),
    {
        Asking { retries, base_ms, attempt: 0, error: None }
    }

    /// Decides what follows a try.
    pub fn next(self, event: AskEvent) -> (r: AskStep)
        ensures
            r@ == ask_step(self@, event@),
            match r {
                AskStep::Again { asking, .. } => asking_ok(asking@),
                _ => true,
            },
    {
        proof {
            use_type_invariant(&self);
        }
        match event {
            AskEvent::NoModel => AskStep::GiveUp(Some(Error::Config(NO_MODEL.to_owned()))),
            AskEvent::Unreached(error) => if self.attempt < self.retries {
                let attempt: u32 = self.attempt + 1;
                proof {
                    lemma_delays_grow(self.base_ms as nat, attempt as nat, self.retries as nat);
                }
                let wait_ms = retry_delay_ms(self.base_ms, attempt);
                let asking = Asking {
                    retries: self.retries,
                    base_ms: self.base_ms,
                    attempt,
                    error: Some(error),
                };
                AskStep::Again { asking, wait_ms }
            } else {
                AskStep::GiveUp(Some(error))
            },
            AskEvent::Ended(Some(response), _) => AskStep::Answer(response),
            AskEvent::Ended(None, Some(error)) => AskStep::GiveUp(Some(error)),
            AskEvent::Ended(None, None) => AskStep::GiveUp(self.error),
        }
    }
}

/// The question after these failures; nothing once it was given up.
pub open spec fn after_failures(asking: AskingView, errors: Seq<ErrorView>) -> Option<AskingView>
    decreases errors.len(),
{
    if errors.len() == 0 {
        Some(asking)
    } else {
        match after_failures(asking, errors.drop_last()) {
            Some(before) => match ask_step(before, AskEventView::Unreached(errors.last())) {
                AskStepView::Again { asking, .. } => Some(asking),
                _ => None,
            },
            None => None,
        }
    }
}

/// A question is put again once for each failure, exactly as often as there are retries, and no
/// wait is longer than sixteen times the first.
pub proof fn law_tries_are_counted(asking: AskingView, errors: Seq<ErrorView>)
    requires
        asking_ok(asking),
    ensures
        after_failures(asking, errors) is Some <==> errors.len() <= asking.retries - asking.attempt,
        match after_failures(asking, errors) {
            Some(now) => {
                &&& asking_ok(now)
                &&& now.attempt == asking.attempt + errors.len()
                &&& now.retries == asking.retries
                &&& errors.len() > 0 ==> now.error == Some(errors.last())
            },
            None => true,
        },
        forall|attempt: nat|
            attempt >= 1 ==> #[trigger] retry_delay(asking.base_ms, attempt) <= 16 * asking.base_ms,
    decreases errors.len(),
{
    reveal_with_fuel(doubled, 6);
    if errors.len() > 0 {
        law_tries_are_counted(asking, errors.drop_last());
    }
}

} // verus!
