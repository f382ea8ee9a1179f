use delphai::agent::behavior::BehaviorState;
use delphai::agent::conversation::{idle_count, pair_conversations, ConversationRequest};

fn idle(name: &str) -> (String, BehaviorState) {
    (name.to_string(), BehaviorState::Idle)
}

fn all_close(n: usize) -> Vec<Vec<bool>> {
    vec![vec![true; n]; n]
}

fn req(a: &str, b: &str) -> ConversationRequest {
    ConversationRequest { initiator: a.to_string(), partner: b.to_string() }
}

#[test]
fn no_citizens_no_conversations() {
    let r = pair_conversations(&vec![], &vec![], 0);
    assert!(r.is_empty());
}

#[test]
fn lone_citizen_has_no_partner() {
    let r = pair_conversations(&vec![idle("A")], &all_close(1), 3);
    assert!(r.is_empty());
}

#[test]
fn two_close_idle_citizens_talk() {
    let r = pair_conversations(&vec![idle("Kael"), idle("Elder")], &all_close(2), 0);
    assert_eq!(r, vec![req("Kael", "Elder")]);
}

#[test]
fn far_citizens_do_not_talk() {
    let close = vec![vec![true, false], vec![false, true]];
    let r = pair_conversations(&vec![idle("A"), idle("B")], &close, 0);
    assert!(r.is_empty());
}

#[test]
fn busy_citizens_are_excluded() {
    let citizens = vec![
        idle("A"),
        ("B".to_string(), BehaviorState::SeekingFood),
        ("C".to_string(), BehaviorState::Gathering),
    ];
    assert!(pair_conversations(&citizens, &all_close(3), 0).is_empty());
    assert_eq!(idle_count(&citizens), 1);
}

#[test]
fn three_close_citizens_make_one_pair() {
    let citizens = vec![idle("A"), idle("B"), idle("C")];
    let r = pair_conversations(&citizens, &all_close(3), 0);
    assert_eq!(r, vec![req("A", "B")]);
}

#[test]
fn rotation_lets_a_later_citizen_initiate() {
    let citizens = vec![idle("A"), idle("B"), idle("C")];
    let r = pair_conversations(&citizens, &all_close(3), 2);
    assert_eq!(r, vec![req("C", "A")]);
    // The offset wraps around the number of idle citizens.
    let r = pair_conversations(&citizens, &all_close(3), 5);
    assert_eq!(r, vec![req("C", "A")]);
}

#[test]
fn rotation_counts_idle_citizens_only() {
    let citizens = vec![
        idle("A"),
        ("Busy".to_string(), BehaviorState::Gathering),
        idle("B"),
        idle("C"),
    ];
    let r = pair_conversations(&citizens, &all_close(4), 1);
    assert_eq!(r, vec![req("B", "C")]);
}

#[test]
fn four_close_citizens_make_two_pairs() {
    let citizens = vec![idle("A"), idle("B"), idle("C"), idle("D")];
    let r = pair_conversations(&citizens, &all_close(4), 0);
    assert_eq!(r, vec![req("A", "B"), req("C", "D")]);
}

#[test]
fn initiator_takes_first_close_free_partner() {
    // A is close to C only; B is close to C too but comes after A takes C.
    let close = vec![
        vec![true, false, true],
        vec![false, true, true],
        vec![true, true, true],
    ];
    let r = pair_conversations(&vec![idle("A"), idle("B"), idle("C")], &close, 0);
    assert_eq!(r, vec![req("A", "C")]);
}
