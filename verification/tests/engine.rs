use aiutante::engine::{
    Action, Conversation, EngineError, Event, Phase, ProviderResponse, ToolInvocationRequest,
    TranscriptEntry, MAX_ROUND_TRIPS,
};
use aiutante::history::{ConversationTurn, Role};

fn request(name: &str) -> ToolInvocationRequest {
    ToolInvocationRequest {
        name: name.to_string(),
        arguments: vec![("text".to_string(), "hi".to_string())],
    }
}

fn tool_calls(names: &[&str]) -> Event {
    Event::Completed(ProviderResponse::ToolCalls(names.iter().map(|n| request(n)).collect()))
}

fn results(texts: &[&str]) -> Event {
    Event::ToolsReturned(texts.iter().map(|t| t.to_string()).collect())
}

#[test]
fn start_awaits_a_completion() {
    let history = vec![ConversationTurn::user("one"), ConversationTurn::assistant("two")];
    let c = Conversation::start(&history, "three");
    assert!(matches!(c.phase(), Phase::AwaitingCompletion));
    assert!(matches!(c.action(), Action::CallProvider));
    assert_eq!(c.round_trips(), 0);
    assert!(!c.is_over());
    let transcript = c.transcript();
    assert_eq!(transcript.len(), 3);
    match &transcript[2] {
        TranscriptEntry::Turn(turn) => {
            assert_eq!(turn.role, Role::User);
            assert_eq!(turn.content, "three");
        }
        _ => panic!("the last entry is the user's turn"),
    }
}

#[test]
fn answer_ends_after_one_round_trip() {
    let c = Conversation::start(&Vec::new(), "What time is it?");
    let c = c.step(Event::Completed(ProviderResponse::Answer("Noon.".to_string())));
    assert!(c.is_over());
    assert_eq!(c.round_trips(), 1);
    match c.action() {
        Action::Finish(text) => assert_eq!(text, "Noon."),
        _ => panic!("the conversation is done"),
    }
    match c.transcript().last() {
        Some(TranscriptEntry::Turn(turn)) => {
            assert_eq!(turn.role, Role::Assistant);
            assert_eq!(turn.content, "Noon.");
        }
        _ => panic!("the last entry is the assistant's turn"),
    }
}

#[test]
fn provider_failure_ends_the_conversation() {
    let c = Conversation::start(&Vec::new(), "hi");
    let c = c.step(Event::ProviderFailed("connection refused".to_string()));
    assert!(c.is_over());
    assert_eq!(c.round_trips(), 0);
    match c.action() {
        Action::Fail(EngineError::Provider(cause)) => assert_eq!(cause, "connection refused"),
        _ => panic!("the conversation has failed"),
    }
}

#[test]
fn tool_calls_are_dispatched_and_recorded_in_order() {
    let c = Conversation::start(&Vec::new(), "hi");
    let c = c.step(tool_calls(&["first", "second"]));
    assert_eq!(c.round_trips(), 1);
    match c.action() {
        Action::InvokeTools(requests) => {
            assert_eq!(requests.len(), 2);
            assert_eq!(requests[0].name, "first");
            assert_eq!(requests[1].name, "second");
            assert_eq!(requests[0].arguments, vec![("text".to_string(), "hi".to_string())]);
        }
        _ => panic!("tools are to be run"),
    }
    let c = c.step(results(&["one", "Error: two"]));
    assert!(matches!(c.action(), Action::CallProvider));
    let transcript = c.transcript();
    assert_eq!(transcript.len(), 3);
    match (&transcript[1], &transcript[2]) {
        (
            TranscriptEntry::Exchange { request: a, result: x },
            TranscriptEntry::Exchange { request: b, result: y },
        ) => {
            assert_eq!(a.name, "first");
            assert_eq!(x, "one");
            assert_eq!(b.name, "second");
            assert_eq!(y, "Error: two");
        }
        _ => panic!("the exchanges are recorded"),
    }
}

#[test]
fn events_that_do_not_fit_are_ignored() {
    let c = Conversation::start(&Vec::new(), "hi");
    let c = c.step(results(&["stray"]));
    assert!(matches!(c.action(), Action::CallProvider));
    assert_eq!(c.transcript().len(), 1);
    let c = c.step(tool_calls(&["tool"]));
    let c = c.step(results(&["one", "too many"]));
    assert!(matches!(c.action(), Action::InvokeTools(_)));
    let c = c.step(Event::Completed(ProviderResponse::Answer("early".to_string())));
    assert!(matches!(c.action(), Action::InvokeTools(_)));
    assert_eq!(c.round_trips(), 1);
}

#[test]
fn budget_is_exceeded_after_ten_round_trips() {
    assert_eq!(MAX_ROUND_TRIPS, 10);
    let mut c = Conversation::start(&Vec::new(), "loop");
    let mut provider_calls = 0;
    while let Action::CallProvider = c.action() {
        provider_calls += 1;
        assert!(provider_calls <= 10);
        c = c.step(tool_calls(&["again"]));
        assert_eq!(c.round_trips(), provider_calls);
        c = c.step(results(&["more"]));
    }
    assert_eq!(provider_calls, 10);
    assert_eq!(c.round_trips(), 10);
    assert!(matches!(c.action(), Action::Fail(EngineError::TurnBudgetExceeded)));
    assert_eq!(c.transcript().len(), 11);
    let c = c.step(tool_calls(&["again"]));
    assert!(matches!(c.action(), Action::Fail(EngineError::TurnBudgetExceeded)));
    assert_eq!(c.round_trips(), 10);
}

#[test]
fn answer_in_the_last_round_trip_is_an_answer() {
    let mut c = Conversation::start(&Vec::new(), "loop");
    for _ in 0..9 {
        c = c.step(tool_calls(&["again"]));
        c = c.step(results(&["more"]));
    }
    assert!(matches!(c.action(), Action::CallProvider));
    let c = c.step(Event::Completed(ProviderResponse::Answer("at last".to_string())));
    assert_eq!(c.round_trips(), 10);
    match c.action() {
        Action::Finish(text) => assert_eq!(text, "at last"),
        _ => panic!("the conversation is done"),
    }
}
