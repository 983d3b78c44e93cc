use blockcell::asking::{AskEvent, AskStep, Asking, Ending, NO_MODEL, SILENCE_SECS};
use blockcell::error::Error;
use blockcell::reply::Reply;
use blockcell::types::{LLMResponse, StreamChunk};

fn text_chunk(text: &str) -> StreamChunk {
    StreamChunk::TextDelta { delta: text.to_string() }
}

fn no_contact(text: &str) -> AskEvent {
    AskEvent::Unreached(Error::Provider(text.to_string()))
}

#[test]
fn model_is_asked_again_after_longer_and_longer_waits() {
    let mut asking = Asking::new(6, 100);
    let mut waits = Vec::new();
    loop {
        match asking.next(no_contact("down")) {
            AskStep::Again { asking: left, wait_ms } => {
                waits.push(wait_ms);
                asking = left;
            }
            AskStep::GiveUp(error) => {
                assert_eq!(error.map(|e| e.message().to_string()).as_deref(), Some("down"));
                break;
            }
            AskStep::Answer(_) => panic!("no answer was given"),
        }
    }
    assert_eq!(waits, vec![100, 200, 400, 800, 1600, 1600]);
}

#[test]
fn question_without_retries_is_given_up_at_once() {
    match Asking::new(0, u64::MAX).next(no_contact("down")) {
        AskStep::GiveUp(Some(error)) => assert_eq!(error.message(), "down"),
        _ => panic!("expected to give up"),
    }
}

#[test]
fn question_is_given_up_where_no_model_is_left() {
    match Asking::new(3, 10).next(AskEvent::NoModel) {
        AskStep::GiveUp(Some(Error::Config(text))) => assert_eq!(text, NO_MODEL),
        _ => panic!("expected to give up"),
    }
}

#[test]
fn reply_that_has_begun_is_not_asked_for_again() {
    let broken = AskEvent::Ended(None, Some(Error::Provider("cut".to_string())));
    match Asking::new(3, 10).next(broken) {
        AskStep::GiveUp(Some(error)) => assert_eq!(error.message(), "cut"),
        _ => panic!("expected to give up"),
    }
}

#[test]
fn silent_end_is_put_down_to_the_failure_before_it() {
    let asking = match Asking::new(1, 10).next(no_contact("first")) {
        AskStep::Again { asking, .. } => asking,
        _ => panic!("expected another try"),
    };
    match asking.next(AskEvent::Ended(None, None)) {
        AskStep::GiveUp(Some(error)) => assert_eq!(error.message(), "first"),
        _ => panic!("expected to give up"),
    }
    assert!(matches!(
        Asking::new(1, 10).next(AskEvent::Ended(None, None)),
        AskStep::GiveUp(None)
    ));
}

#[test]
fn complete_reply_is_the_answer() {
    let mut reply = Reply::new();
    reply.apply(&text_chunk("hel"));
    reply.apply(&text_chunk("lo"));
    let event = reply.end(Ending::Done(LLMResponse::default()));
    match Asking::new(0, 0).next(event) {
        AskStep::Answer(response) => assert_eq!(response.content.as_deref(), Some("hello")),
        _ => panic!("expected an answer"),
    }
}

#[test]
fn reply_that_breaks_off_counts_only_with_calls() {
    let mut reply = Reply::new();
    reply.apply(&text_chunk("half"));
    match reply.end(Ending::Broken("reset".to_string())) {
        AskEvent::Ended(None, Some(error)) => assert_eq!(error.message(), "reset"),
        _ => panic!("expected no answer"),
    }
    match reply.end(Ending::Silent) {
        AskEvent::Ended(None, Some(error)) => {
            assert_eq!(error.message(), "Stream timeout after 300 seconds")
        }
        _ => panic!("expected no answer"),
    }
    assert_eq!(SILENCE_SECS, 300);
    assert!(matches!(reply.end(Ending::Closed), AskEvent::Ended(None, None)));
    reply.apply(&StreamChunk::ToolCallStart {
        index: 0,
        id: "c1".to_string(),
        name: "exec".to_string(),
    });
    match reply.end(Ending::Broken("reset".to_string())) {
        AskEvent::Ended(Some(response), Some(_)) => {
            assert_eq!(response.content.as_deref(), Some("half"));
            assert_eq!(response.tool_calls.len(), 1);
            assert_eq!(response.finish_reason, "stop");
        }
        _ => panic!("expected the calls"),
    }
}
