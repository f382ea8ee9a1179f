use delphai::tech::TechTree;

#[test]
fn starts_with_stone_tools_locked() {
    let tree = TechTree::new();
    assert!(!tree.is_unlocked(0));
    assert_eq!(tree.next_tech_name(), Some("stone_tools"));
}

#[test]
fn add_points_below_threshold_does_not_unlock() {
    let mut tree = TechTree::new();
    let result = tree.add_points(49);
    assert!(result.is_none());
    assert!(!tree.is_unlocked(0));
}

#[test]
fn add_points_at_threshold_unlocks_stone_tools() {
    let mut tree = TechTree::new();
    let result = tree.add_points(50);
    assert_eq!(result, Some(0));
    assert!(tree.is_unlocked(0));
}

#[test]
fn unlocked_twice_returns_none_second_time() {
    let mut tree = TechTree::new();
    tree.add_points(50);
    let second = tree.add_points(10);
    assert!(second.is_none(), "already-unlocked tech must not fire again");
}

#[test]
fn next_tech_name_is_none_when_all_unlocked() {
    let mut tree = TechTree::new();
    tree.add_points(500);
    assert!(tree.next_tech_name().is_none());
}

#[test]
fn second_tech_agriculture_unlocks_at_200() {
    let mut tree = TechTree::new();
    tree.add_points(199);
    assert!(tree.next_tech_name() == Some("agriculture"));
    tree.add_points(1);
    assert!(tree.is_unlocked(1));
}

#[test]
fn bronze_tools_unlocks_at_500() {
    let mut tree = TechTree::new();
    tree.add_points(499);
    assert!(!tree.is_unlocked(2));
    tree.add_points(1);
    assert!(tree.is_unlocked(2));
}

#[test]
fn one_big_grant_reports_the_last_unlocked_tech() {
    let mut tree = TechTree::new();
    assert_eq!(tree.add_points(250), Some(1));
    assert!(tree.is_unlocked(0));
    assert!(tree.is_unlocked(1));
    assert!(!tree.is_unlocked(2));
    assert_eq!(tree.research_points, 250);
}

#[test]
fn next_required_points_follows_unlocks() {
    let mut tree = TechTree::new();
    assert_eq!(tree.next_required_points(), Some(50));
    tree.add_points(60);
    assert_eq!(tree.next_required_points(), Some(200));
    tree.add_points(200);
    assert_eq!(tree.next_required_points(), Some(500));
    tree.add_points(300);
    assert_eq!(tree.next_required_points(), None);
}

#[test]
fn points_saturate_instead_of_overflowing() {
    let mut tree = TechTree::new();
    tree.add_points(u32::MAX);
    tree.add_points(5);
    assert_eq!(tree.research_points, u32::MAX);
}

#[test]
fn unknown_id_is_not_unlocked() {
    let mut tree = TechTree::new();
    tree.add_points(1000);
    assert!(!tree.is_unlocked(3));
    assert!(!tree.is_unlocked(u32::MAX));
}

#[test]
fn default_tree_equals_new_tree() {
    let tree = TechTree::default();
    assert_eq!(tree.research_points, 0);
    assert_eq!(tree.nodes.len(), 3);
    assert_eq!(tree.next_tech_name(), Some("stone_tools"));
}

#[test]
fn no_unlock_means_no_node_changed() {
    let mut tree = TechTree::new();
    tree.add_points(50);
    let before: Vec<bool> = tree.nodes.iter().map(|n| n.unlocked).collect();
    assert_eq!(tree.add_points(10), None);
    let after: Vec<bool> = tree.nodes.iter().map(|n| n.unlocked).collect();
    assert_eq!(before, after);
}
