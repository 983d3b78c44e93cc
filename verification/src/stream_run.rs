//! The run of a streamed answer: its pieces, and its one end.

use crate::chat::nonempty;
use crate::stream::{lemma_streamed_concat, streamed_reasoning, streamed_text};
use crate::types::{chunks_view, ChunkView, LLMResponse, ResponseView, StreamChunk};
use vstd::prelude::*;

verus! {

/// A chunk that ends what is passed on.
pub open spec fn ends(chunk: ChunkView) -> bool {
    chunk is Done || chunk is Error
}

/// The response has this text and this reasoning, where they are not empty.
pub open spec fn says(response: ResponseView, text: Seq<char>, reasoning: Seq<char>) -> bool {
    response.content == nonempty(text) && response.reasoning_content == nonempty(reasoning)
}

pub open spec fn response_opt(response: Option<LLMResponse>) -> Option<ResponseView> {
    match response {
        Some(r) => Some(r@),
        None => None,
    }
}

/// Collects the pieces of a streamed answer.
pub trait Collects: Sized {
    type Piece;

    type State;

    spec fn state(&self) -> Self::State;

    /// The answer after one more piece, what is passed on for the piece, and the response where
    /// the piece completes the answer.
    spec fn added(state: Self::State, piece: Self::Piece) -> (
        Self::State,
        Seq<ChunkView>,
        Option<ResponseView>,
    );

    /// The response where the stream ends.
    spec fn ended(state: Self::State) -> ResponseView;

    /// The text that was collected.
    spec fn text(state: Self::State) -> Seq<char>;

    /// The reasoning that was collected.
    spec fn reasoning(state: Self::State) -> Seq<char>;

    /// What is passed on for a piece is the text and the reasoning that it adds, and ends nothing.
    proof fn lemma_added(state: Self::State, piece: Self::Piece)
        ensures
            ({
                let (now, chunks, response) = Self::added(state, piece);
                &&& forall|i: int| 0 <= i < chunks.len() ==> !ends(#[trigger] chunks[i])
                &&& Self::text(now) == Self::text(state) + streamed_text(chunks)
                &&& Self::reasoning(now) == Self::reasoning(state) + streamed_reasoning(chunks)
                &&& response is Some ==> says(
                    response->0,
                    Self::text(now),
                    Self::reasoning(now),
                )
            }),
    ;

    /// The response says what was collected.
    proof fn lemma_ended(state: Self::State)
        ensures
            says(Self::ended(state), Self::text(state), Self::reasoning(state)),
    ;

    fn collect(&mut self, piece: &Self::Piece) -> (r: (Vec<StreamChunk>, Option<LLMResponse>))
        ensures
            (final(self).state(), chunks_view(r.0@), response_opt(r.1)) == Self::added(
                old(self).state(),
                *piece,
            ),
    ;

    fn conclude(&self) -> (r: LLMResponse)
        ensures
            r@ == Self::ended(self.state()),
    ;
}

/// What happens to a stream.
pub enum StreamEvent<P> {
    /// A piece of the answer came in.
    Piece(P),
    /// The stream says that it is complete, or is at its end.
    Complete,
    /// The stream broke off, for this reason.
    Broken(String),
}

pub struct RunView<S> {
    pub state: S,
    pub over: bool,
}

/// The run after one more event, and what is passed on for it: nothing once the run is over.
pub open spec fn run_step<C: Collects>(
    run: RunView<C::State>,
    event: StreamEvent<C::Piece>,
) -> (RunView<C::State>, Seq<ChunkView>) {
    if run.over {
        (run, Seq::empty())
    } else {
        match event {
            StreamEvent::Piece(piece) => {
                let (state, chunks, response) = C::added(run.state, piece);
                match response {
                    Some(response) => (
                        RunView { state, over: true },
                        chunks.push(ChunkView::Done { response }),
                    ),
                    None => (RunView { state, over: false }, chunks),
                }
            },
            StreamEvent::Complete => (
                RunView { state: run.state, over: true },
                seq![ChunkView::Done { response: C::ended(run.state) }],
            ),
            StreamEvent::Broken(message) => (
                RunView { state: run.state, over: true },
                seq![ChunkView::Error { message: message@ }],
            ),
        }
    }
}

/// The run after some events, and all that was passed on.
pub open spec fn run_events<C: Collects>(
    state: C::State,
    events: Seq<StreamEvent<C::Piece>>,
) -> (RunView<C::State>, Seq<ChunkView>)
    decreases events.len(),
{
    if events.len() == 0 {
        (RunView { state, over: false }, Seq::empty())
    } else {
        let (before, chunks) = run_events::<C>(state, events.drop_last());
        let (now, more) = run_step::<C>(before, events.last());
        (now, chunks + more)
    }
}

proof fn lemma_one_end<C: Collects>(state: C::State, events: Seq<StreamEvent<C::Piece>>)
    ensures
        ({
            let (run, chunks) = run_events::<C>(state, events);
            &&& run.over ==> chunks.len() > 0 && ends(chunks.last())
            &&& forall|i: int|
                0 <= i < chunks.len() - (if run.over {
                    1int
                } else {
                    0int
                }) ==> !ends(#[trigger] chunks[i])
        }),
    decreases events.len(),
{
    if events.len() > 0 {
        lemma_one_end::<C>(state, events.drop_last());
        let (before, chunks) = run_events::<C>(state, events.drop_last());
        let event = events.last();
        let (now, more) = run_step::<C>(before, event);
        let all = chunks + more;
        if before.over {
            assert(all =~= chunks);
        } else if let StreamEvent::Piece(piece) = event {
            C::lemma_added(before.state, piece);
            let added = C::added(before.state, piece).1;
            assert forall|i: int|
                0 <= i < all.len() - (if now.over {
                    1int
                } else {
                    0int
                }) implies !ends(#[trigger] all[i]) by {
                if i < chunks.len() {
                    assert(all[i] == chunks[i]);
                } else {
                    assert(all[i] == added[i - chunks.len()]);
                }
            }
        } else {
            assert forall|i: int| 0 <= i < all.len() - 1 implies !ends(#[trigger] all[i]) by {
                assert(all[i] == chunks[i]);
            }
        }
    }
}

/// Once a stream is complete or broke off, exactly one chunk that ends it was passed on, the
/// response or an error, and it is the last.
pub proof fn law_stream_ends_once<C: Collects>(
    state: C::State,
    events: Seq<StreamEvent<C::Piece>>,
)
    requires
        events.len() > 0,
        !(events.last() is Piece),
    ensures
        ({
            let (run, chunks) = run_events::<C>(state, events);
            &&& run.over
            &&& chunks.len() > 0
            &&& ends(chunks.last())
            &&& forall|i: int| 0 <= i < chunks.len() - 1 ==> !ends(#[trigger] chunks[i])
        }),
{
    lemma_one_end::<C>(state, events);
}

proof fn lemma_text_passed_on<C: Collects>(state: C::State, events: Seq<StreamEvent<C::Piece>>)
    ensures
        ({
            let (run, chunks) = run_events::<C>(state, events);
            &&& C::text(run.state) == C::text(state) + streamed_text(chunks)
            &&& C::reasoning(run.state) == C::reasoning(state) + streamed_reasoning(chunks)
            &&& run.over && chunks.last() is Done ==> says(
                chunks.last()->response,
                C::text(run.state),
                C::reasoning(run.state),
            )
        }),
    decreases events.len(),
{
    if events.len() == 0 {
        assert(C::text(state) + Seq::<char>::empty() =~= C::text(state));
        assert(C::reasoning(state) + Seq::<char>::empty() =~= C::reasoning(state));
    } else {
        lemma_text_passed_on::<C>(state, events.drop_last());
        let (before, chunks) = run_events::<C>(state, events.drop_last());
        let event = events.last();
        let (now, more) = run_step::<C>(before, event);
        lemma_streamed_concat(chunks, more);
        reveal_with_fuel(streamed_text, 2);
        reveal_with_fuel(streamed_reasoning, 2);
        if before.over {
            assert(chunks + more =~= chunks);
        } else if let StreamEvent::Piece(piece) = event {
            C::lemma_added(before.state, piece);
            let added = C::added(before.state, piece).1;
            if now.over {
                assert(more.drop_last() =~= added);
                assert(streamed_text(more) =~= streamed_text(added));
                assert(streamed_reasoning(more) =~= streamed_reasoning(added));
            }
        } else {
            C::lemma_ended(before.state);
            assert(streamed_text(more) =~= Seq::empty());
            assert(streamed_reasoning(more) =~= Seq::empty());
        }
        assert(C::text(now.state) =~= C::text(state) + streamed_text(chunks + more));
        assert(C::reasoning(now.state) =~= C::reasoning(state) + streamed_reasoning(
            chunks + more,
        ));
    }
}

/// The text of the response that ends a stream is the text that was passed on piece by piece, and
/// so is its reasoning.
pub proof fn law_response_says_what_was_passed_on<C: Collects>(
    state: C::State,
    events: Seq<StreamEvent<C::Piece>>,
)
    requires
        C::text(state).len() == 0,
        C::reasoning(state).len() == 0,
    ensures
        ({
            let (run, chunks) = run_events::<C>(state, events);
            run.over && chunks.last() is Done ==> says(
                chunks.last()->response,
                streamed_text(chunks),
                streamed_reasoning(chunks),
            )
        }),
{
    lemma_text_passed_on::<C>(state, events);
    let chunks = run_events::<C>(state, events).1;
    assert(C::text(state) + streamed_text(chunks) =~= streamed_text(chunks));
    assert(C::reasoning(state) + streamed_reasoning(chunks) =~= streamed_reasoning(chunks));
}

/// Passes on a streamed answer.
pub struct StreamRun<C: Collects> {
    pub collector: C,
    pub over: bool,
}

impl<C: Collects> StreamRun<C> {
    pub open spec fn run(&self) -> RunView<C::State> {
        RunView { state: self.collector.state(), over: self.over }
    }

    pub fn new(collector: C) -> (r: Self)
        ensures
            r.run() == (RunView { state: collector.state(), over: false }),
    {
        StreamRun { collector, over: false }
    }

    /// Takes in what happens to the stream, and returns what is passed on for it.
    pub fn take_in(&mut self, event: StreamEvent<C::Piece>) -> (chunks: Vec<StreamChunk>)
        ensures
            (final(self).run(), chunks_view(chunks@)) == run_step::<C>(old(self).run(), event),
    {
        let mut chunks: Vec<StreamChunk> = Vec::new();
        assert(chunks_view(chunks@) =~= Seq::empty());
        if self.over {
            return chunks;
        }
        match event {
            StreamEvent::Piece(piece) => {
                let (mut added, response) = self.collector.collect(&piece);
                if let Some(response) = response {
                    let ghost before = chunks_view(added@);
                    let last = StreamChunk::Done { response };
                    added.push(last);
                    assert(chunks_view(added@) =~= before.push(last@));
                    self.over = true;
                }
                added
            },
            StreamEvent::Complete => {
                let last = StreamChunk::Done { response: self.collector.conclude() };
                chunks.push(last);
                assert(chunks_view(chunks@) =~= seq![last@]);
                self.over = true;
                chunks
            },
            StreamEvent::Broken(message) => {
                let last = StreamChunk::Error { message };
                chunks.push(last);
                assert(chunks_view(chunks@) =~= seq![last@]);
                self.over = true;
                chunks
            },
        }
    }
}

} // verus!
