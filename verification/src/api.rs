//! The streamed answer of the completion endpoint: the chunks that carry
//! an answer, and the events that carry the chunks.

use vstd::prelude::*;
use vstd::string::StringExecFns;

use crate::history::{ConversationTurn, TurnView};

verus! {

/// What a chunk adds to the message that is being streamed.
#[derive(Debug)]
pub struct Delta {
    pub role: Option<String>,
    pub content: Option<String>,
}

/// `Delta` as a mathematical value.
pub struct DeltaView {
    pub role: Option<Seq<char>>,
    pub content: Option<Seq<char>>,
}

/// One alternative of a chunk.
#[derive(Debug)]
pub struct Choice {
    pub index: i32,
    pub delta: Delta,
    pub finish_reason: Option<String>,
}

/// `Choice` as a mathematical value.
pub struct ChoiceView {
    pub index: int,
    pub delta: DeltaView,
    pub finish_reason: Option<Seq<char>>,
}

impl View for Choice {
    type V = ChoiceView;

    open spec fn view(&self) -> ChoiceView {
        ChoiceView {
            index: self.index as int,
            delta: DeltaView {
                role: self.delta.role.deep_view(),
                content: self.delta.content.deep_view(),
            },
            finish_reason: self.finish_reason.deep_view(),
        }
    }
}

impl DeepView for Choice {
    type V = ChoiceView;

    open spec fn deep_view(&self) -> ChoiceView {
        self@
    }
}

/// One piece of a streamed answer.
#[derive(Debug)]
pub struct ChatCompletionChunk {
    pub object: String,
    pub created: u64,
    pub choices: Vec<Choice>,
}

/// `ChatCompletionChunk` as a mathematical value.
pub struct ChunkView {
    pub object: Seq<char>,
    pub created: int,
    pub choices: Seq<ChoiceView>,
}

impl View for ChatCompletionChunk {
    type V = ChunkView;

    open spec fn view(&self) -> ChunkView {
        ChunkView {
            object: self.object@,
            created: self.created as int,
            choices: self.choices.deep_view(),
        }
    }
}

impl DeepView for ChatCompletionChunk {
    type V = ChunkView;

    open spec fn deep_view(&self) -> ChunkView {
        self@
    }
}

/// The chunk made at the time `created`, in seconds, with one alternative:
/// the given change of the message and the given reason to finish.
pub open spec fn chunk(
    content: Option<Seq<char>>,
    role: Option<Seq<char>>,
    finish_reason: Option<Seq<char>>,
    created: int,
) -> ChunkView {
    ChunkView {
        object: "chat.completion.chunk"@,
        created,
        choices: seq![ChoiceView { index: 0, delta: DeltaView { role, content }, finish_reason }],
    }
}

/// The chunks that carry the answer `response`: the assistant begins to
/// speak, says the answer, and stops.
pub open spec fn answer_chunks(response: Seq<char>, created: int) -> Seq<ChunkView> {
    seq![
        chunk(None, Some("assistant"@), None, created),
        chunk(Some(response), None, None, created),
        chunk(None, None, Some("stop"@), created),
    ]
}

/// The event that carries the text `data`.
pub open spec fn event(data: Seq<char>) -> Seq<char> {
    "data: "@ + data + "\n\n"@
}

impl ChatCompletionChunk {
    /// A chunk made at the time `created`, in seconds.
    pub fn new(
        content: Option<String>,
        role: Option<String>,
        finish_reason: Option<String>,
        created: u64,
    ) -> (made: Self)
        ensures
            made@ == chunk(
                content.deep_view(),
                role.deep_view(),
                finish_reason.deep_view(),
                created as int,
            ),
    {
        let mut choices: Vec<Choice> = Vec::new();
        choices.push(Choice { index: 0, delta: Delta { role, content }, finish_reason });
        let made = ChatCompletionChunk {
            object: String::from_str("chat.completion.chunk"),
            created,
            choices,
        };
        assert(made@.choices =~= chunk(
            content.deep_view(),
            role.deep_view(),
            finish_reason.deep_view(),
            created as int,
        ).choices);
        made
    }

    /// The chunk that ends an answer.
    pub fn stop(created: u64) -> (made: Self)
        ensures
            made@ == chunk(None, None, Some("stop"@), created as int),
    {
        Self::new(None, None, Some(String::from_str("stop")), created)
    }

    /// A chunk that carries a part of the answer.
    pub fn content(content: &str, created: u64) -> (made: Self)
        ensures
            made@ == chunk(Some(content@), None, None, created as int),
    {
        Self::new(Some(String::from_str(content)), None, None, created)
    }

    /// The chunk that begins an answer spoken by `role`.
    pub fn start(role: &str, created: u64) -> (made: Self)
        ensures
            made@ == chunk(None, Some(role@), None, created as int),
    {
        Self::new(None, Some(String::from_str(role)), None, created)
    }
}

/// The chunks that carry the answer `response`, made at the time
/// `created`, in seconds.
pub fn completion_chunks(response: &str, created: u64) -> (chunks: Vec<ChatCompletionChunk>)
    ensures
        chunks.deep_view() == answer_chunks(response@, created as int),
{
    let mut chunks: Vec<ChatCompletionChunk> = Vec::new();
    chunks.push(ChatCompletionChunk::start("assistant", created));
    chunks.push(ChatCompletionChunk::content(response, created));
    chunks.push(ChatCompletionChunk::stop(created));
    assert(chunks.deep_view() =~= answer_chunks(response@, created as int));
    chunks
}

/// The event that carries a chunk, given the chunk as text.
pub fn chunk_event(json: &str) -> (text: String)
    ensures
        text@ == event(json@),
{
    let mut text = String::from_str("data: ");
    text.append(json);
    text.append("\n\n");
    text
}

/// The event that ends a stream.
pub fn done_event() -> (text: String)
    ensures
        text@ == event("[DONE]"@),
{
    chunk_event("[DONE]")
}

/// The history that a request for a completion continues: its messages
/// without the first, which stands for the agent's instructions.
pub fn request_history(messages: &Vec<ConversationTurn>) -> (history: Vec<ConversationTurn>)
    ensures
        history.deep_view() == if messages.len() == 0 {
            Seq::<TurnView>::empty()
        } else {
            messages.deep_view().skip(1)
        },
{
    let mut history: Vec<ConversationTurn> = Vec::new();
    let mut i: usize = 1;
    while i < messages.len()
        invariant
            1 <= i,
            i == 1 || i <= messages.len(),
            history.len() == i - 1,
            forall|j: int| 0 <= j < i - 1 ==> (#[trigger] history[j])@ == messages[j + 1]@,
        decreases messages.len() - i,
    {
        history.push(messages[i].clone());
        i += 1;
    }
    proof {
        if messages.len() == 0 {
            assert(history.deep_view() =~= Seq::<TurnView>::empty());
        } else {
            assert(history.deep_view() =~= messages.deep_view().skip(1));
        }
    }
    history
}

} // verus!
