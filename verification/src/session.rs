//! Histories of long-lived conversations, one for each channel.
//!
//! A channel's history comes into being when it is first asked for, is
//! emptied by a reset, and is never dropped. What is done to one channel
//! leaves every other channel as it was.

use vstd::prelude::*;

use crate::history::{clone_history, extend_history, ConversationTurn, TurnView};

verus! {

/// The history of one channel.
#[derive(Debug)]
pub struct Session {
    channel: i64,
    history: Vec<ConversationTurn>,
}

/// The histories of all channels that were seen so far.
#[derive(Debug)]
pub struct SessionStore {
    sessions: Vec<Session>,
}

/// The history that `store` holds for `channel`: empty where it holds none.
pub open spec fn history_of(store: Map<i64, Seq<TurnView>>, channel: i64) -> Seq<TurnView> {
    if store.contains_key(channel) {
        store[channel]
    } else {
        Seq::empty()
    }
}

/// `store` after `turns` were added to the history of `channel`.
pub open spec fn appended(
    store: Map<i64, Seq<TurnView>>,
    channel: i64,
    turns: Seq<TurnView>,
) -> Map<i64, Seq<TurnView>> {
    store.insert(channel, history_of(store, channel) + turns)
}

/// `store` after the history of `channel` was emptied.
pub open spec fn cleared(store: Map<i64, Seq<TurnView>>, channel: i64) -> Map<
    i64,
    Seq<TurnView>,
> {
    if store.contains_key(channel) {
        store.insert(channel, Seq::empty())
    } else {
        store
    }
}

/// Adding turns to one channel leaves the history of every other channel
/// as it was.
pub proof fn lemma_append_keeps_other_channels(
    store: Map<i64, Seq<TurnView>>,
    channel: i64,
    turns: Seq<TurnView>,
    other: i64,
)
    requires
        other != channel,
    ensures
        history_of(appended(store, channel, turns), other) == history_of(store, other),
        appended(store, channel, turns).contains_key(other) == store.contains_key(other),
{
}

/// Turns added to one channel one batch after the other stand in its
/// history in that order, behind what was there, none twice and none lost.
pub proof fn lemma_appends_keep_order(
    store: Map<i64, Seq<TurnView>>,
    channel: i64,
    first: Seq<TurnView>,
    second: Seq<TurnView>,
)
    ensures
        history_of(appended(appended(store, channel, first), channel, second), channel)
            == history_of(store, channel) + first + second,
{
}

/// Batches added to two different channels do not depend on the order in
/// which they were added.
pub proof fn lemma_appends_commute(
    store: Map<i64, Seq<TurnView>>,
    a: i64,
    turns_a: Seq<TurnView>,
    b: i64,
    turns_b: Seq<TurnView>,
)
    requires
        a != b,
    ensures
        appended(appended(store, a, turns_a), b, turns_b) == appended(
            appended(store, b, turns_b),
            a,
            turns_a,
        ),
{
    assert(appended(appended(store, a, turns_a), b, turns_b) =~= appended(
        appended(store, b, turns_b),
        a,
        turns_a,
    ));
}

/// A reset empties the history of its channel and leaves the history of
/// every other channel as it was.
pub proof fn lemma_clear_is_local(store: Map<i64, Seq<TurnView>>, channel: i64, other: i64)
    ensures
        history_of(cleared(store, channel), channel) == Seq::<TurnView>::empty(),
        other != channel ==> history_of(cleared(store, channel), other) == history_of(
            store,
            other,
        ),
        cleared(store, channel).contains_key(other) == store.contains_key(other),
{
}

impl SessionStore {
    /// No channel has two sessions.
    #[verifier::type_invariant]
    spec fn distinct_channels(self) -> bool {
        forall|i: int, j: int|
            0 <= i < j < self.sessions.len() ==> self.sessions[i].channel
                != self.sessions[j].channel
    }

    spec fn holds(self, channel: i64) -> bool {
        exists|i: int| 0 <= i < self.sessions.len() && self.sessions[i].channel == channel
    }

    spec fn index_of(self, channel: i64) -> int {
        choose|i: int| 0 <= i < self.sessions.len() && self.sessions[i].channel == channel
    }

    fn position(&self, channel: i64) -> (found: Option<usize>)
        ensures
            match found {
                Some(i) => i < self.sessions.len() && self.sessions[i as int].channel == channel
                    && self.holds(channel) && self.index_of(channel) == i,
                None => !self.holds(channel),
            },
    {
        proof {
            use_type_invariant(self);
        }
        let mut i: usize = 0;
        while i < self.sessions.len()
            invariant
                i <= self.sessions.len(),
                self.distinct_channels(),
                forall|j: int| 0 <= j < i ==> self.sessions[j].channel != channel,
            decreases self.sessions.len() - i,
        {
            if self.sessions[i].channel == channel {
                return Some(i);
            }
            i += 1;
        }
        None
    }
}

impl View for SessionStore {
    type V = Map<i64, Seq<TurnView>>;

    closed spec fn view(&self) -> Map<i64, Seq<TurnView>> {
        Map::new(
            |channel: i64| self.holds(channel),
            |channel: i64| self.sessions[self.index_of(channel)].history.deep_view(),
        )
    }
}

impl SessionStore {
    /// A store that has seen no channel.
    pub fn new() -> (store: Self)
        ensures
            store@ == Map::<i64, Seq<TurnView>>::empty(),
    {
        let store = SessionStore { sessions: Vec::new() };
        assert(store@ =~= Map::<i64, Seq<TurnView>>::empty());
        store
    }

    /// Whether the store has a history for `channel`.
    pub fn contains(&self, channel: i64) -> (known: bool)
        ensures
            known == self@.contains_key(channel),
    {
        self.position(channel).is_some()
    }

    /// A copy of the history of `channel`, which is empty for a channel
    /// that the store has not seen. The store is left as it is.
    pub fn snapshot(&self, channel: i64) -> (history: Vec<ConversationTurn>)
        ensures
            history.deep_view() == history_of(self@, channel),
    {
        match self.position(channel) {
            Some(i) => clone_history(&self.sessions[i].history),
            None => {
                let history: Vec<ConversationTurn> = Vec::new();
                assert(history.deep_view() =~= Seq::<TurnView>::empty());
                history
            },
        }
    }
}

impl SessionStore {
    /// The history of `channel`, as a copy. A channel that the store has
    /// not seen gets an empty history.
    pub fn get(&mut self, channel: i64) -> (history: Vec<ConversationTurn>)
        ensures
            history.deep_view() == history_of(old(self)@, channel),
            final(self)@ == appended(old(self)@, channel, Seq::empty()),
    {
        let none: Vec<ConversationTurn> = Vec::new();
        assert(none.deep_view() =~= Seq::<TurnView>::empty());
        self.append(channel, &none);
        assert(history_of(old(self)@, channel) + Seq::<TurnView>::empty() =~= history_of(
            old(self)@,
            channel,
        ));
        self.snapshot(channel)
    }

    /// Adds `turns`, in their order, to the end of the history of
    /// `channel`. A channel that the store has not seen starts from an
    /// empty history.
    pub fn append(&mut self, channel: i64, turns: &Vec<ConversationTurn>)
        ensures
            final(self)@ == appended(old(self)@, channel, turns.deep_view()),
    {
        proof {
            use_type_invariant(&*self);
        }
        let ghost before = *self;
        let found = self.position(channel);
        let mut taken = SessionStore { sessions: Vec::new() };
        core::mem::swap(self, &mut taken);
        let SessionStore { sessions } = taken;
        let mut sessions = sessions;
        match found {
            Some(i) => {
                extend_history(&mut sessions[i].history, turns);
                *self = SessionStore { sessions };
                proof {
                    assert forall|c: i64| before.holds(c) implies self.holds(c) by {
                        let k = before.index_of(c);
                        assert(self.sessions[k].channel == c);
                    }
                    assert forall|c: i64| self.holds(c) implies before.holds(c) by {
                        let k = self.index_of(c);
                        assert(before.sessions[k].channel == c);
                    }
                    assert forall|c: i64| self.holds(c) implies self.index_of(c)
                        == before.index_of(c) by {
                        let k = self.index_of(c);
                        assert(before.sessions[k].channel == c);
                    }
                    assert(self@ =~= before@.insert(
                        channel,
                        history_of(before@, channel) + turns.deep_view(),
                    ));
                }
            },
            None => {
                let history = clone_history(turns);
                sessions.push(Session { channel, history });
                *self = SessionStore { sessions };
                proof {
                    let last = self.sessions.len() - 1;
                    assert forall|c: i64| before.holds(c) implies self.holds(c)
                        && self.index_of(c) == before.index_of(c) by {
                        let k = before.index_of(c);
                        assert(self.sessions[k].channel == c);
                    }
                    assert(self.sessions[last].channel == channel);
                    assert(self.holds(channel));
                    assert forall|c: i64| self.holds(c) && c != channel implies before.holds(
                        c,
                    ) by {
                        let k = self.index_of(c);
                        assert(before.sessions[k].channel == c);
                    }
                    assert(Seq::<TurnView>::empty() + turns.deep_view() =~= turns.deep_view());
                    assert(self@ =~= before@.insert(
                        channel,
                        history_of(before@, channel) + turns.deep_view(),
                    ));
                }
            },
        }
    }

    /// Empties the history of `channel`. A channel that the store has not
    /// seen stays unseen.
    pub fn clear(&mut self, channel: i64)
        ensures
            final(self)@ == cleared(old(self)@, channel),
    {
        proof {
            use_type_invariant(&*self);
        }
        let ghost before = *self;
        let found = self.position(channel);
        let mut taken = SessionStore { sessions: Vec::new() };
        core::mem::swap(self, &mut taken);
        let SessionStore { sessions } = taken;
        let mut sessions = sessions;
        match found {
            Some(i) => {
                sessions[i].history.clear();
                *self = SessionStore { sessions };
                proof {
                    assert forall|c: i64| before.holds(c) implies self.holds(c) by {
                        let k = before.index_of(c);
                        assert(self.sessions[k].channel == c);
                    }
                    assert forall|c: i64| self.holds(c) implies before.holds(c)
                        && self.index_of(c) == before.index_of(c) by {
                        let k = self.index_of(c);
                        assert(before.sessions[k].channel == c);
                    }
                    assert(self.sessions[i as int].history.deep_view() =~= Seq::<
                        TurnView,
                    >::empty());
                    assert(self@ =~= before@.insert(channel, Seq::empty()));
                }
            },
            None => {
                *self = SessionStore { sessions };
            },
        }
    }
}

} // verus!
