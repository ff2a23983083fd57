use aiutante::api::{
    chunk_event, completion_chunks, done_event, request_history, ChatCompletionChunk,
};
use aiutante::history::ConversationTurn;

#[test]
fn chunk_has_one_choice() {
    let chunk = ChatCompletionChunk::new(
        Some("text".to_string()),
        Some("assistant".to_string()),
        Some("stop".to_string()),
        1700000000,
    );
    assert_eq!(chunk.object, "chat.completion.chunk");
    assert_eq!(chunk.created, 1700000000);
    assert_eq!(chunk.choices.len(), 1);
    assert_eq!(chunk.choices[0].index, 0);
    assert_eq!(chunk.choices[0].delta.content.as_deref(), Some("text"));
    assert_eq!(chunk.choices[0].delta.role.as_deref(), Some("assistant"));
    assert_eq!(chunk.choices[0].finish_reason.as_deref(), Some("stop"));
}

#[test]
fn answer_is_streamed_as_start_content_stop() {
    let chunks = completion_chunks("Noon.", 42);
    assert_eq!(chunks.len(), 3);
    let parts: Vec<(Option<&str>, Option<&str>, Option<&str>)> = chunks
        .iter()
        .map(|c| {
            let choice = &c.choices[0];
            (
                choice.delta.role.as_deref(),
                choice.delta.content.as_deref(),
                choice.finish_reason.as_deref(),
            )
        })
        .collect();
    assert_eq!(
        parts,
        vec![
            (Some("assistant"), None, None),
            (None, Some("Noon."), None),
            (None, None, Some("stop")),
        ]
    );
    assert!(chunks.iter().all(|c| c.created == 42 && c.choices.len() == 1));
    assert_eq!(ChatCompletionChunk::start("user", 1).choices[0].delta.role.as_deref(), Some("user"));
    assert_eq!(ChatCompletionChunk::content("x", 1).choices[0].delta.content.as_deref(), Some("x"));
    assert_eq!(ChatCompletionChunk::stop(1).choices[0].finish_reason.as_deref(), Some("stop"));
}

#[test]
fn events_frame_their_data() {
    assert_eq!(chunk_event("{\"a\":1}"), "data: {\"a\":1}\n\n");
    assert_eq!(done_event(), "data: [DONE]\n\n");
}

#[test]
fn request_history_drops_the_first_message() {
    assert!(request_history(&Vec::new()).is_empty());
    assert!(request_history(&vec![ConversationTurn::user("system")]).is_empty());
    let messages = vec![
        ConversationTurn::user("system"),
        ConversationTurn::user("q"),
        ConversationTurn::assistant("a"),
    ];
    let history = request_history(&messages);
    assert_eq!(history.len(), 2);
    assert_eq!(history[0].content, "q");
    assert_eq!(history[1].content, "a");
}
