use delphai::llm::queue::{InferencePriority, InferenceQueue};

fn tag(s: &str) -> String {
    s.to_string()
}

#[test]
fn empty_queue() {
    let q: InferenceQueue<String> = InferenceQueue::new(3);
    assert!(q.is_empty());
    assert_eq!(q.len(), 0);
}

#[test]
fn queue_push_increases_len() {
    let mut q = InferenceQueue::new(3);
    q.push(InferencePriority::Normal, tag("a"));
    assert_eq!(q.len(), 1);
    assert!(!q.is_empty());
}

#[test]
fn drain_respects_max_per_turn() {
    let mut q = InferenceQueue::new(2);
    q.push(InferencePriority::Low, tag("a"));
    q.push(InferencePriority::Low, tag("b"));
    q.push(InferencePriority::Low, tag("c"));
    let batch = q.drain_turn();
    assert_eq!(batch.len(), 2);
    assert_eq!(q.len(), 1, "one remains for next turn");
}

#[test]
fn drain_returns_highest_priority_first() {
    let mut q = InferenceQueue::new(10);
    q.push(InferencePriority::Low, tag("low"));
    q.push(InferencePriority::High, tag("high"));
    q.push(InferencePriority::Normal, tag("normal"));
    let batch = q.drain_turn();
    assert_eq!(batch[0], "high");
    assert_eq!(batch[1], "normal");
    assert_eq!(batch[2], "low");
}

#[test]
fn drain_empty_queue_returns_empty() {
    let mut q: InferenceQueue<String> = InferenceQueue::new(5);
    let batch = q.drain_turn();
    assert!(batch.is_empty());
}

#[test]
fn drain_fewer_than_max() {
    let mut q = InferenceQueue::new(10);
    q.push(InferencePriority::Normal, tag("a"));
    let batch = q.drain_turn();
    assert_eq!(batch.len(), 1);
}

#[test]
fn remaining_requests_survive_drain() {
    let mut q = InferenceQueue::new(1);
    q.push(InferencePriority::High, tag("high"));
    q.push(InferencePriority::Low, tag("low"));
    let first = q.drain_turn();
    assert_eq!(first[0], "high");
    assert_eq!(q.len(), 1);
    let second = q.drain_turn();
    assert_eq!(second[0], "low");
    assert!(q.is_empty());
}

#[test]
fn clear_removes_all() {
    let mut q = InferenceQueue::new(5);
    q.push(InferencePriority::Normal, tag("a"));
    q.push(InferencePriority::Normal, tag("b"));
    q.clear();
    assert!(q.is_empty());
}

#[test]
fn max_per_turn_is_accessible() {
    let q: InferenceQueue<String> = InferenceQueue::new(7);
    assert_eq!(q.max_per_turn(), 7);
}

#[test]
fn priority_ordering() {
    assert!(InferencePriority::High > InferencePriority::Normal);
    assert!(InferencePriority::Normal > InferencePriority::Low);
}

#[test]
fn equal_priorities_leave_in_push_order() {
    let mut q = InferenceQueue::new(10);
    q.push(InferencePriority::Normal, 1u32);
    q.push(InferencePriority::High, 2u32);
    q.push(InferencePriority::Normal, 3u32);
    q.push(InferencePriority::High, 4u32);
    q.push(InferencePriority::Low, 5u32);
    assert_eq!(q.drain_turn(), vec![2, 4, 1, 3, 5]);
}

#[test]
fn zero_per_turn_drains_nothing() {
    let mut q = InferenceQueue::new(0);
    q.push(InferencePriority::High, 1u8);
    assert!(q.drain_turn().is_empty());
    assert_eq!(q.len(), 1);
}

#[test]
fn drains_across_turns_conserve_requests() {
    let mut q = InferenceQueue::new(2);
    for i in 0..5u32 {
        q.push(if i % 2 == 0 { InferencePriority::Low } else { InferencePriority::High }, i);
    }
    let mut all = Vec::new();
    while !q.is_empty() {
        all.extend(q.drain_turn());
    }
    assert_eq!(all, vec![1, 3, 0, 2, 4]);
}

#[test]
fn leftovers_keep_their_priority_level() {
    let mut q = InferenceQueue::new(1);
    q.push(InferencePriority::Normal, "n1".to_string());
    q.push(InferencePriority::Normal, "n2".to_string());
    assert_eq!(q.drain_turn(), vec!["n1".to_string()]);
    q.push(InferencePriority::High, "h".to_string());
    assert_eq!(q.drain_turn(), vec!["h".to_string()]);
    assert_eq!(q.drain_turn(), vec!["n2".to_string()]);
}
