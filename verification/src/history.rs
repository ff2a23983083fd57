//! Conversation turns and histories.
//!
//! A history is the ordered list of the turns of a conversation, user and
//! assistant in turn. It only ever grows at its end.

use vstd::prelude::*;
use vstd::string::StringExecFns;

verus! {

/// Who spoke a turn.
#[derive(Clone, Copy, Debug, PartialEq, Eq, Structural)]
pub enum Role {
    User,
    Assistant,
}

/// One turn of a conversation.
#[derive(Debug)]
pub struct ConversationTurn {
    pub role: Role,
    pub content: String,
}

/// `ConversationTurn` as a mathematical value.
pub struct TurnView {
    pub role: Role,
    pub content: Seq<char>,
}

impl View for ConversationTurn {
    type V = TurnView;

    open spec fn view(&self) -> TurnView {
        TurnView { role: self.role, content: self.content@ }
    }
}

impl DeepView for ConversationTurn {
    type V = TurnView;

    open spec fn deep_view(&self) -> TurnView {
        self@
    }
}

impl Clone for ConversationTurn {
    fn clone(&self) -> (r: Self)
        ensures
            r@ == self@,
    {
        ConversationTurn { role: self.role, content: self.content.clone() }
    }
}

/// A turn of the user.
pub open spec fn user_turn(content: Seq<char>) -> TurnView {
    TurnView { role: Role::User, content }
}

/// A turn of the assistant.
pub open spec fn assistant_turn(content: Seq<char>) -> TurnView {
    TurnView { role: Role::Assistant, content }
}

/// The turns of `history` come in pairs: the user speaks, the assistant
/// answers.
pub open spec fn alternating(history: Seq<TurnView>) -> bool {
    &&& history.len() % 2 == 0
    &&& forall|i: int|
        0 <= i < history.len() ==> (#[trigger] history[i]).role == if i % 2 == 0 {
            Role::User
        } else {
            Role::Assistant
        }
}

/// The turns that a finished exchange adds to a history.
pub open spec fn exchange(said: Seq<char>, answered: Seq<char>) -> Seq<TurnView> {
    seq![user_turn(said), assistant_turn(answered)]
}

/// A history of exchanges stays one when an exchange is added to it.
pub proof fn lemma_exchange_keeps_alternating(
    history: Seq<TurnView>,
    said: Seq<char>,
    answered: Seq<char>,
)
    requires
        alternating(history),
    ensures
        alternating(history + exchange(said, answered)),
{
    let longer = history + exchange(said, answered);
    assert forall|i: int| 0 <= i < longer.len() implies (#[trigger] longer[i]).role == if i % 2
        == 0 {
        Role::User
    } else {
        Role::Assistant
    } by {
        if i < history.len() {
            assert(longer[i] == history[i]);
        } else {
            assert(longer[i] == exchange(said, answered)[i - history.len()]);
        }
    }
}

impl ConversationTurn {
    /// A turn of the user.
    pub fn user(content: &str) -> (turn: Self)
        ensures
            turn@ == user_turn(content@),
    {
        ConversationTurn { role: Role::User, content: String::from_str(content) }
    }

    /// A turn of the assistant.
    pub fn assistant(content: &str) -> (turn: Self)
        ensures
            turn@ == assistant_turn(content@),
    {
        ConversationTurn { role: Role::Assistant, content: String::from_str(content) }
    }
}

/// A copy of a history.
pub fn clone_history(history: &Vec<ConversationTurn>) -> (copy: Vec<ConversationTurn>)
    ensures
        copy.deep_view() == history.deep_view(),
{
    let mut copy: Vec<ConversationTurn> = Vec::new();
    let mut i: usize = 0;
    while i < history.len()
        invariant
            i <= history.len(),
            copy.len() == i,
            forall|j: int| 0 <= j < i ==> (#[trigger] copy[j])@ == history[j]@,
        decreases history.len() - i,
    {
        copy.push(history[i].clone());
        i += 1;
    }
    assert(copy.deep_view() =~= history.deep_view());
    copy
}

/// Appends copies of the turns of `turns` to `history`.
pub fn extend_history(history: &mut Vec<ConversationTurn>, turns: &Vec<ConversationTurn>)
    ensures
        final(history).deep_view() == old(history).deep_view() + turns.deep_view(),
{
    let ghost before = history.deep_view();
    let ghost start = history.len();
    let mut i: usize = 0;
    while i < turns.len()
        invariant
            i <= turns.len(),
            start == before.len(),
            history.len() == start + i,
            forall|j: int| 0 <= j < start ==> (#[trigger] history[j])@ == before[j],
            forall|j: int|
                start <= j < start + i ==> (#[trigger] history[j])@ == turns[j - start]@,
        decreases turns.len() - i,
    {
        history.push(turns[i].clone());
        i += 1;
    }
    assert(history.deep_view() =~= before + turns.deep_view());
}

} // verus!
