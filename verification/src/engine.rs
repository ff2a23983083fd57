//! The conversation loop as a state machine.
//!
//! A conversation awaits a completion, then either is done with an answer
//! or dispatches the tools that the provider asked for and awaits the next
//! completion. One provider call, with the tool dispatch that follows it if
//! there is one, is a round trip; a conversation makes at most
//! `MAX_ROUND_TRIPS` of them. The machine decides; whoever drives it calls
//! the provider, runs the tools and hands back what happened.

use vstd::prelude::*;
use vstd::string::StringExecFns;

use crate::history::{assistant_turn, user_turn, ConversationTurn, TurnView};

verus! {

/// The most round trips that one conversation makes.
pub const MAX_ROUND_TRIPS: usize = 10;

/// A provider's request to invoke a tool: the tool's name and the values
/// of its arguments, in the order in which they are to be substituted.
#[derive(Debug)]
pub struct ToolInvocationRequest {
    pub name: String,
    pub arguments: Vec<(String, String)>,
}

/// `ToolInvocationRequest` as a mathematical value.
pub struct RequestView {
    pub name: Seq<char>,
    pub arguments: Seq<(Seq<char>, Seq<char>)>,
}

impl View for ToolInvocationRequest {
    type V = RequestView;

    open spec fn view(&self) -> RequestView {
        RequestView { name: self.name@, arguments: self.arguments.deep_view() }
    }
}

impl DeepView for ToolInvocationRequest {
    type V = RequestView;

    open spec fn deep_view(&self) -> RequestView {
        self@
    }
}

/// What a completion provider answers: a final text, or requests to invoke
/// tools.
#[derive(Debug)]
pub enum ProviderResponse {
    Answer(String),
    ToolCalls(Vec<ToolInvocationRequest>),
}

/// `ProviderResponse` as a mathematical value.
pub enum ResponseView {
    Answer(Seq<char>),
    ToolCalls(Seq<RequestView>),
}

impl View for ProviderResponse {
    type V = ResponseView;

    open spec fn view(&self) -> ResponseView {
        match self {
            ProviderResponse::Answer(text) => ResponseView::Answer(text@),
            ProviderResponse::ToolCalls(requests) => ResponseView::ToolCalls(
                requests.deep_view(),
            ),
        }
    }
}

/// Why a conversation ended without an answer.
#[derive(Debug)]
pub enum EngineError {
    /// The provider failed, with the cause.
    Provider(String),
    /// The round trips were used up before the provider gave an answer.
    TurnBudgetExceeded,
}

/// `EngineError` as a mathematical value.
pub enum EngineErrorView {
    Provider(Seq<char>),
    TurnBudgetExceeded,
}

impl View for EngineError {
    type V = EngineErrorView;

    open spec fn view(&self) -> EngineErrorView {
        match self {
            EngineError::Provider(cause) => EngineErrorView::Provider(cause@),
            EngineError::TurnBudgetExceeded => EngineErrorView::TurnBudgetExceeded,
        }
    }
}

/// One entry of the record that a conversation keeps of itself: a turn, or
/// a tool invocation with its result.
#[derive(Debug)]
pub enum TranscriptEntry {
    Turn(ConversationTurn),
    Exchange { request: ToolInvocationRequest, result: String },
}

/// `TranscriptEntry` as a mathematical value.
pub enum EntryView {
    Turn(TurnView),
    Exchange { request: RequestView, result: Seq<char> },
}

impl View for TranscriptEntry {
    type V = EntryView;

    open spec fn view(&self) -> EntryView {
        match self {
            TranscriptEntry::Turn(turn) => EntryView::Turn(turn@),
            TranscriptEntry::Exchange { request, result } => EntryView::Exchange {
                request: request@,
                result: result@,
            },
        }
    }
}

impl DeepView for TranscriptEntry {
    type V = EntryView;

    open spec fn deep_view(&self) -> EntryView {
        self@
    }
}

/// What happened outside the machine since its last decision.
#[derive(Debug)]
pub enum Event {
    /// The provider answered.
    Completed(ProviderResponse),
    /// The provider failed, with the cause.
    ProviderFailed(String),
    /// The tools ran; their results, in the order of the requests.
    ToolsReturned(Vec<String>),
}

/// `Event` as a mathematical value.
pub enum EventView {
    Completed(ResponseView),
    ProviderFailed(Seq<char>),
    ToolsReturned(Seq<Seq<char>>),
}

impl View for Event {
    type V = EventView;

    open spec fn view(&self) -> EventView {
        match self {
            Event::Completed(response) => EventView::Completed(response@),
            Event::ProviderFailed(cause) => EventView::ProviderFailed(cause@),
            Event::ToolsReturned(results) => EventView::ToolsReturned(results.deep_view()),
        }
    }
}

/// Where a conversation stands.
#[derive(Debug)]
pub enum Phase {
    /// The provider is to be called with the transcript.
    AwaitingCompletion,
    /// These tools are to be run, in this order.
    DispatchingTools(Vec<ToolInvocationRequest>),
    /// The provider gave this answer.
    Done(String),
    /// The conversation ended without an answer.
    Terminated(EngineError),
}

/// `Phase` as a mathematical value.
pub enum PhaseView {
    AwaitingCompletion,
    DispatchingTools(Seq<RequestView>),
    Done(Seq<char>),
    Terminated(EngineErrorView),
}

impl View for Phase {
    type V = PhaseView;

    open spec fn view(&self) -> PhaseView {
        match self {
            Phase::AwaitingCompletion => PhaseView::AwaitingCompletion,
            Phase::DispatchingTools(requests) => PhaseView::DispatchingTools(
                requests.deep_view(),
            ),
            Phase::Done(text) => PhaseView::Done(text@),
            Phase::Terminated(error) => PhaseView::Terminated(error@),
        }
    }
}

/// A conversation as a mathematical value: where it stands, how many round
/// trips it has begun, and its record of itself.
pub struct ConversationView {
    pub phase: PhaseView,
    pub round_trips: nat,
    pub transcript: Seq<EntryView>,
}

/// The turns of a history as transcript entries.
pub open spec fn turns_as_entries(history: Seq<TurnView>) -> Seq<EntryView> {
    Seq::new(history.len(), |i: int| EntryView::Turn(history[i]))
}

/// The tool invocations of one dispatch with their results, in the order of
/// the requests.
pub open spec fn exchanges(requests: Seq<RequestView>, results: Seq<Seq<char>>) -> Seq<
    EntryView,
> {
    Seq::new(
        requests.len(),
        |i: int| EntryView::Exchange { request: requests[i], result: results[i] },
    )
}

/// The conversation that continues `history` with the user saying
/// `prompt`: it awaits its first completion.
pub open spec fn started(history: Seq<TurnView>, prompt: Seq<char>) -> ConversationView {
    ConversationView {
        phase: PhaseView::AwaitingCompletion,
        round_trips: 0,
        transcript: turns_as_entries(history).push(EntryView::Turn(user_turn(prompt))),
    }
}

/// The conversation that goes on from `history` as it is: it awaits its
/// first completion, and nothing is added to what was said.
pub open spec fn resumed(history: Seq<TurnView>) -> ConversationView {
    ConversationView {
        phase: PhaseView::AwaitingCompletion,
        round_trips: 0,
        transcript: turns_as_entries(history),
    }
}

/// The conversation after an event.
///
/// An answer ends the conversation, and a failure of the provider ends it;
/// a request for tools starts their dispatch. Either answer of the
/// provider begins a round trip. When the tools have returned, their
/// results are recorded and the provider is asked again, unless the round
/// trips are used up: then the conversation ends without an answer. An
/// event that does not fit the phase, or results that are not one for each
/// request, leave the conversation as it is.
pub open spec fn step(s: ConversationView, e: EventView) -> ConversationView {
    match (s.phase, e) {
        (PhaseView::AwaitingCompletion, EventView::Completed(ResponseView::Answer(text))) => {
            ConversationView {
                phase: PhaseView::Done(text),
                round_trips: s.round_trips + 1,
                transcript: s.transcript.push(EntryView::Turn(assistant_turn(text))),
            }
        },
        (
            PhaseView::AwaitingCompletion,
            EventView::Completed(ResponseView::ToolCalls(requests)),
        ) => ConversationView {
            phase: PhaseView::DispatchingTools(requests),
            round_trips: s.round_trips + 1,
            transcript: s.transcript,
        },
        (PhaseView::AwaitingCompletion, EventView::ProviderFailed(cause)) => ConversationView {
            phase: PhaseView::Terminated(EngineErrorView::Provider(cause)),
            round_trips: s.round_trips,
            transcript: s.transcript,
        },
        (PhaseView::DispatchingTools(requests), EventView::ToolsReturned(results)) => {
            if results.len() == requests.len() {
                ConversationView {
                    phase: if s.round_trips >= MAX_ROUND_TRIPS {
                        PhaseView::Terminated(EngineErrorView::TurnBudgetExceeded)
                    } else {
                        PhaseView::AwaitingCompletion
                    },
                    round_trips: s.round_trips,
                    transcript: s.transcript + exchanges(requests, results),
                }
            } else {
                s
            }
        },
        _ => s,
    }
}

/// A copy of a list of pairs of strings.
fn clone_pairs(pairs: &Vec<(String, String)>) -> (copy: Vec<(String, String)>)
    ensures
        copy.deep_view() == pairs.deep_view(),
{
    let mut copy: Vec<(String, String)> = Vec::new();
    let mut i: usize = 0;
    while i < pairs.len()
        invariant
            i <= pairs.len(),
            copy.len() == i,
            forall|j: int| 0 <= j < i ==> (#[trigger] copy[j]).deep_view() == pairs[j].deep_view(),
        decreases pairs.len() - i,
    {
        copy.push((pairs[i].0.clone(), pairs[i].1.clone()));
        i += 1;
    }
    assert(copy.deep_view() =~= pairs.deep_view());
    copy
}

impl Clone for ToolInvocationRequest {
    fn clone(&self) -> (r: Self)
        ensures
            r@ == self@,
    {
        ToolInvocationRequest { name: self.name.clone(), arguments: clone_pairs(&self.arguments) }
    }
}

/// A copy of a list of requests.
fn clone_requests(requests: &Vec<ToolInvocationRequest>) -> (copy: Vec<ToolInvocationRequest>)
    ensures
        copy.deep_view() == requests.deep_view(),
{
    let mut copy: Vec<ToolInvocationRequest> = Vec::new();
    let mut i: usize = 0;
    while i < requests.len()
        invariant
            i <= requests.len(),
            copy.len() == i,
            forall|j: int| 0 <= j < i ==> (#[trigger] copy[j])@ == requests[j]@,
        decreases requests.len() - i,
    {
        copy.push(requests[i].clone());
        i += 1;
    }
    assert(copy.deep_view() =~= requests.deep_view());
    copy
}

impl Clone for EngineError {
    fn clone(&self) -> (r: Self)
        ensures
            r@ == self@,
    {
        match self {
            EngineError::Provider(cause) => EngineError::Provider(cause.clone()),
            EngineError::TurnBudgetExceeded => EngineError::TurnBudgetExceeded,
        }
    }
}

/// What the driver of a conversation has to do next.
#[derive(Debug)]
pub enum Action {
    /// Call the provider with the transcript, and report what it answers.
    CallProvider,
    /// Run these tools, and report their results in this order.
    InvokeTools(Vec<ToolInvocationRequest>),
    /// Hand the answer to the caller.
    Finish(String),
    /// Report the failure to the caller.
    Fail(EngineError),
}

/// `Action` as a mathematical value.
pub enum ActionView {
    CallProvider,
    InvokeTools(Seq<RequestView>),
    Finish(Seq<char>),
    Fail(EngineErrorView),
}

impl View for Action {
    type V = ActionView;

    open spec fn view(&self) -> ActionView {
        match self {
            Action::CallProvider => ActionView::CallProvider,
            Action::InvokeTools(requests) => ActionView::InvokeTools(requests.deep_view()),
            Action::Finish(text) => ActionView::Finish(text@),
            Action::Fail(error) => ActionView::Fail(error@),
        }
    }
}

/// What the driver has to do in a phase.
pub open spec fn action_of(phase: PhaseView) -> ActionView {
    match phase {
        PhaseView::AwaitingCompletion => ActionView::CallProvider,
        PhaseView::DispatchingTools(requests) => ActionView::InvokeTools(requests),
        PhaseView::Done(text) => ActionView::Finish(text),
        PhaseView::Terminated(error) => ActionView::Fail(error),
    }
}

/// A conversation of an agent.
#[derive(Debug)]
pub struct Conversation {
    phase: Phase,
    round_trips: usize,
    transcript: Vec<TranscriptEntry>,
}

impl View for Conversation {
    type V = ConversationView;

    closed spec fn view(&self) -> ConversationView {
        ConversationView {
            phase: self.phase@,
            round_trips: self.round_trips as nat,
            transcript: self.transcript.deep_view(),
        }
    }
}

/// A conversation never begins more round trips than it may make, and one
/// that awaits a completion has one left.
pub open spec fn within_budget(s: ConversationView) -> bool {
    &&& s.round_trips <= MAX_ROUND_TRIPS
    &&& s.phase is AwaitingCompletion ==> s.round_trips < MAX_ROUND_TRIPS
}

impl Conversation {
    #[verifier::type_invariant]
    spec fn budget_kept(self) -> bool {
        within_budget(self@)
    }

    /// Goes on from `history` as it is.
    pub fn resume(history: &Vec<ConversationTurn>) -> (conversation: Self)
        ensures
            conversation@ == resumed(history.deep_view()),
    {
        let mut transcript: Vec<TranscriptEntry> = Vec::new();
        let mut i: usize = 0;
        while i < history.len()
            invariant
                i <= history.len(),
                transcript.len() == i,
                forall|j: int|
                    0 <= j < i ==> (#[trigger] transcript[j])@ == EntryView::Turn(history[j]@),
            decreases history.len() - i,
        {
            transcript.push(TranscriptEntry::Turn(history[i].clone()));
            i += 1;
        }
        let conversation = Conversation {
            phase: Phase::AwaitingCompletion,
            round_trips: 0,
            transcript,
        };
        assert(conversation@.transcript =~= resumed(history.deep_view()).transcript);
        conversation
    }

    /// Continues `history` with the user saying `prompt`.
    pub fn start(history: &Vec<ConversationTurn>, prompt: &str) -> (conversation: Self)
        ensures
            conversation@ == started(history.deep_view(), prompt@),
    {
        let Conversation { phase, round_trips, transcript } = Self::resume(history);
        let mut transcript = transcript;
        transcript.push(TranscriptEntry::Turn(ConversationTurn::user(prompt)));
        let conversation = Conversation { phase, round_trips, transcript };
        assert(conversation@.transcript =~= started(history.deep_view(), prompt@).transcript);
        conversation
    }

    /// The conversation after `event`.
    pub fn step(self, event: Event) -> (next: Self)
        ensures
            next@ == step(self@, event@),
            within_budget(next@),
    {
        proof {
            use_type_invariant(&self);
        }
        let Conversation { phase, round_trips, transcript } = self;
        let mut transcript = transcript;
        match (phase, event) {
            (Phase::AwaitingCompletion, Event::Completed(ProviderResponse::Answer(text))) => {
                transcript.push(TranscriptEntry::Turn(ConversationTurn::assistant(text.as_str())));
                let next = Conversation {
                    phase: Phase::Done(text),
                    round_trips: round_trips + 1,
                    transcript,
                };
                assert(next@.transcript =~= step(self@, event@).transcript);
                next
            },
            (
                Phase::AwaitingCompletion,
                Event::Completed(ProviderResponse::ToolCalls(requests)),
            ) => Conversation {
                phase: Phase::DispatchingTools(requests),
                round_trips: round_trips + 1,
                transcript,
            },
            (Phase::AwaitingCompletion, Event::ProviderFailed(cause)) => Conversation {
                phase: Phase::Terminated(EngineError::Provider(cause)),
                round_trips,
                transcript,
            },
            (Phase::DispatchingTools(requests), Event::ToolsReturned(results)) => {
                if results.len() == requests.len() {
                    let ghost before = transcript.deep_view();
                    let ghost start = transcript.len();
                    let mut i: usize = 0;
                    while i < requests.len()
                        invariant
                            i <= requests.len(),
                            results.len() == requests.len(),
                            start == before.len(),
                            transcript.len() == start + i,
                            forall|j: int|
                                0 <= j < start ==> (#[trigger] transcript[j])@ == before[j],
                            forall|j: int|
                                start <= j < start + i ==> (#[trigger] transcript[j])@
                                    == (EntryView::Exchange {
                                    request: requests[j - start]@,
                                    result: results[j - start]@,
                                }),
                        decreases requests.len() - i,
                    {
                        transcript.push(
                            TranscriptEntry::Exchange {
                                request: requests[i].clone(),
                                result: results[i].clone(),
                            },
                        );
                        i += 1;
                    }
                    let phase = if round_trips >= MAX_ROUND_TRIPS {
                        Phase::Terminated(EngineError::TurnBudgetExceeded)
                    } else {
                        Phase::AwaitingCompletion
                    };
                    let next = Conversation { phase, round_trips, transcript };
                    assert(next@.transcript =~= before + exchanges(
                        requests.deep_view(),
                        results.deep_view(),
                    ));
                    next
                } else {
                    Conversation {
                        phase: Phase::DispatchingTools(requests),
                        round_trips,
                        transcript,
                    }
                }
            },
            (phase, _) => Conversation { phase, round_trips, transcript },
        }
    }
}

impl Conversation {
    /// What the driver has to do next.
    pub fn action(&self) -> (action: Action)
        ensures
            action@ == action_of(self@.phase),
    {
        match &self.phase {
            Phase::AwaitingCompletion => Action::CallProvider,
            Phase::DispatchingTools(requests) => Action::InvokeTools(clone_requests(requests)),
            Phase::Done(text) => Action::Finish(text.clone()),
            Phase::Terminated(error) => Action::Fail(error.clone()),
        }
    }

    /// Whether the conversation has ended, with or without an answer.
    pub fn is_over(&self) -> (over: bool)
        ensures
            over == (self@.phase is Done || self@.phase is Terminated),
    {
        match &self.phase {
            Phase::Done(_) => true,
            Phase::Terminated(_) => true,
            _ => false,
        }
    }

    /// Where the conversation stands.
    pub fn phase(&self) -> (phase: &Phase)
        ensures
            phase@ == self@.phase,
    {
        &self.phase
    }

    /// The round trips that the conversation has begun.
    pub fn round_trips(&self) -> (n: usize)
        ensures
            n == self@.round_trips,
            n <= MAX_ROUND_TRIPS,
    {
        proof {
            use_type_invariant(self);
        }
        self.round_trips
    }

    /// The conversation's record of itself: what a provider is called with.
    pub fn transcript(&self) -> (transcript: &Vec<TranscriptEntry>)
        ensures
            transcript.deep_view() == self@.transcript,
    {
        &self.transcript
    }
}

/// The conversation after the provider asked for tools and the tools
/// returned, one such round after the other.
pub open spec fn after_tool_rounds(
    s: ConversationView,
    rounds: Seq<(Seq<RequestView>, Seq<Seq<char>>)>,
) -> ConversationView
    decreases rounds.len(),
{
    if rounds.len() == 0 {
        s
    } else {
        let asked = step(s, EventView::Completed(ResponseView::ToolCalls(rounds[0].0)));
        let returned = step(asked, EventView::ToolsReturned(rounds[0].1));
        after_tool_rounds(returned, rounds.skip(1))
    }
}

/// A conversation that has ended stays as it is, whatever happens.
pub proof fn lemma_ended_is_final(s: ConversationView, e: EventView)
    requires
        s.phase is Done || s.phase is Terminated,
    ensures
        step(s, e) == s,
{
}

/// Every event keeps a conversation within its budget of round trips.
pub proof fn lemma_step_keeps_budget(s: ConversationView, e: EventView)
    requires
        within_budget(s),
    ensures
        within_budget(step(s, e)),
        s.round_trips <= step(s, e).round_trips <= s.round_trips + 1,
{
}

/// A conversation whose provider answers at once ends after one round
/// trip, and its answer is the provider's text.
pub proof fn lemma_answer_ends_after_one_round_trip(
    history: Seq<TurnView>,
    prompt: Seq<char>,
    text: Seq<char>,
)
    ensures
        ({
            let end = step(
                started(history, prompt),
                EventView::Completed(ResponseView::Answer(text)),
            );
            &&& end.phase == PhaseView::Done(text)
            &&& end.round_trips == 1
            &&& action_of(end.phase) == ActionView::Finish(text)
            &&& end.transcript == started(history, prompt).transcript.push(
                EntryView::Turn(assistant_turn(text)),
            )
        }),
{
}

/// A conversation whose provider asks for tools every time awaits the next
/// completion for as long as it has round trips left. With the last one
/// it ends: the budget is exceeded, the round trips are `MAX_ROUND_TRIPS`,
/// and no further round changes that.
pub proof fn lemma_tool_rounds_use_up_budget(
    s: ConversationView,
    rounds: Seq<(Seq<RequestView>, Seq<Seq<char>>)>,
)
    requires
        s.phase is AwaitingCompletion,
        s.round_trips < MAX_ROUND_TRIPS,
        forall|i: int|
            0 <= i < rounds.len() ==> (#[trigger] rounds[i]).0.len() == rounds[i].1.len(),
    ensures
        ({
            let end = after_tool_rounds(s, rounds);
            if s.round_trips + rounds.len() < MAX_ROUND_TRIPS {
                &&& end.phase is AwaitingCompletion
                &&& end.round_trips == s.round_trips + rounds.len()
            } else {
                &&& end.phase == PhaseView::Terminated(EngineErrorView::TurnBudgetExceeded)
                &&& end.round_trips == MAX_ROUND_TRIPS
            }
        }),
    decreases rounds.len(),
{
    if rounds.len() > 0 {
        let asked = step(s, EventView::Completed(ResponseView::ToolCalls(rounds[0].0)));
        let returned = step(asked, EventView::ToolsReturned(rounds[0].1));
        let rest = rounds.skip(1);
        assert forall|i: int| 0 <= i < rest.len() implies (#[trigger] rest[i]).0.len()
            == rest[i].1.len() by {
            assert(rest[i] == rounds[i + 1]);
        }
        if returned.phase is AwaitingCompletion {
            lemma_tool_rounds_use_up_budget(returned, rest);
        } else {
            lemma_tool_rounds_after_end(returned, rest);
        }
    }
}

/// Rounds of tool calls leave a conversation that has ended as it is.
pub proof fn lemma_tool_rounds_after_end(
    s: ConversationView,
    rounds: Seq<(Seq<RequestView>, Seq<Seq<char>>)>,
)
    requires
        s.phase is Done || s.phase is Terminated,
    ensures
        after_tool_rounds(s, rounds) == s,
    decreases rounds.len(),
{
    if rounds.len() > 0 {
        lemma_tool_rounds_after_end(s, rounds.skip(1));
    }
}

} // verus!
