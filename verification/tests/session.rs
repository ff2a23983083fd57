use aiutante::history::{clone_history, extend_history, ConversationTurn, Role};
use aiutante::session::SessionStore;

fn contents(history: &[ConversationTurn]) -> Vec<(Role, String)> {
    history.iter().map(|t| (t.role, t.content.clone())).collect()
}

fn said(texts: &[&str]) -> Vec<(Role, String)> {
    texts
        .iter()
        .enumerate()
        .map(|(i, t)| (if i % 2 == 0 { Role::User } else { Role::Assistant }, t.to_string()))
        .collect()
}

fn exchange(question: &str, answer: &str) -> Vec<ConversationTurn> {
    vec![ConversationTurn::user(question), ConversationTurn::assistant(answer)]
}

#[test]
fn get_creates_an_empty_history() {
    let mut store = SessionStore::new();
    assert!(!store.contains(1));
    assert!(store.snapshot(1).is_empty());
    assert!(!store.contains(1));
    assert!(store.get(1).is_empty());
    assert!(store.contains(1));
    assert!(!store.contains(2));
}

#[test]
fn append_keeps_the_order_of_submission() {
    let mut store = SessionStore::new();
    store.append(1, &exchange("q1", "a1"));
    store.append(1, &exchange("q2", "a2"));
    store.append(1, &Vec::new());
    assert_eq!(contents(&store.get(1)), said(&["q1", "a1", "q2", "a2"]));
}

#[test]
fn channels_do_not_see_each_other() {
    let mut store = SessionStore::new();
    store.append(1, &exchange("q1", "a1"));
    store.append(2, &exchange("x1", "y1"));
    store.append(1, &exchange("q2", "a2"));
    assert_eq!(contents(&store.snapshot(1)), said(&["q1", "a1", "q2", "a2"]));
    assert_eq!(contents(&store.snapshot(2)), said(&["x1", "y1"]));

    let mut other = SessionStore::new();
    other.append(2, &exchange("x1", "y1"));
    other.append(1, &exchange("q1", "a1"));
    other.append(1, &exchange("q2", "a2"));
    assert_eq!(contents(&other.snapshot(1)), contents(&store.snapshot(1)));
    assert_eq!(contents(&other.snapshot(2)), contents(&store.snapshot(2)));
}

#[test]
fn clear_empties_one_channel_only() {
    let mut store = SessionStore::new();
    store.append(1, &exchange("q1", "a1"));
    store.append(2, &exchange("x1", "y1"));
    store.clear(1);
    assert!(store.contains(1));
    assert!(store.snapshot(1).is_empty());
    assert_eq!(contents(&store.snapshot(2)), said(&["x1", "y1"]));
    store.clear(3);
    assert!(!store.contains(3));
    store.append(1, &exchange("q2", "a2"));
    assert_eq!(contents(&store.snapshot(1)), said(&["q2", "a2"]));
}

#[test]
fn history_copies_and_extensions() {
    let first = exchange("q1", "a1");
    let mut copy = clone_history(&first);
    extend_history(&mut copy, &exchange("q2", "a2"));
    assert_eq!(contents(&first), said(&["q1", "a1"]));
    assert_eq!(contents(&copy), said(&["q1", "a1", "q2", "a2"]));
}
