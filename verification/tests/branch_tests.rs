use jormungandr_core::branch::{BlockRef, Branches};

fn block(hash: &str, parent: &str) -> BlockRef {
    BlockRef::new(hash.to_string(), parent.to_string())
}

fn tip_hashes(branches: &Branches) -> Vec<String> {
    branches.branches().iter().map(|r| r.hash().clone()).collect()
}

#[test]
fn apply_on_empty_registry_creates_first_branch() {
    let mut branches = Branches::new();
    assert_eq!(branches.len(), 0);
    let handle = branches.apply_or_create(block("A", "genesis"));
    assert_eq!(branches.len(), 1);
    assert_eq!(handle.index(), 0);
    assert_eq!(tip_hashes(&branches), vec!["A".to_string()]);
}

#[test]
fn apply_extends_matching_tip() {
    let mut branches = Branches::new();
    branches.apply_or_create(block("A", "genesis"));
    let handle = branches.apply_or_create(block("B", "A"));
    assert_eq!(branches.len(), 1);
    assert_eq!(handle.index(), 0);
    assert_eq!(tip_hashes(&branches), vec!["B".to_string()]);
    let tip = handle.get_ref(&branches);
    assert_eq!(tip.hash(), "B");
    assert_eq!(tip.parent_hash(), "A");
}

#[test]
fn apply_forks_when_parent_is_no_longer_a_tip() {
    let mut branches = Branches::new();
    branches.apply_or_create(block("A", "genesis"));
    branches.apply_or_create(block("B", "A"));
    let handle = branches.apply_or_create(block("C", "A"));
    assert_eq!(branches.len(), 2);
    assert_eq!(handle.index(), 1);
    assert_eq!(tip_hashes(&branches), vec!["B".to_string(), "C".to_string()]);
}

#[test]
fn concurrent_forks_settle_on_both_children() {
    // Two candidates with the same parent, in either order: the first
    // extends the parent's branch, the second starts a new branch, and no
    // tip holds the parent any more.
    let mut branches = Branches::new();
    branches.apply_or_create(block("A", "genesis"));
    branches.apply_or_create(block("B", "A"));
    branches.apply_or_create(block("C", "A"));
    let mut hashes = tip_hashes(&branches);
    hashes.sort();
    assert_eq!(hashes, vec!["B".to_string(), "C".to_string()]);
    assert!(!hashes.contains(&"A".to_string()));

    let mut branches = Branches::new();
    branches.apply_or_create(block("A", "genesis"));
    branches.apply_or_create(block("C", "A"));
    branches.apply_or_create(block("B", "A"));
    let mut hashes = tip_hashes(&branches);
    hashes.sort();
    assert_eq!(hashes, vec!["B".to_string(), "C".to_string()]);
    assert!(!hashes.contains(&"A".to_string()));
}

#[test]
fn registry_size_equals_leaf_count_of_candidate_tree() {
    // The candidates form a tree rooted at genesis with leaves D, C and E:
    //   genesis -> A -> B -> D
    //                \-> C
    //   genesis -> E
    let mut branches = Branches::new();
    branches.apply_or_create(block("A", "genesis"));
    branches.apply_or_create(block("B", "A"));
    branches.apply_or_create(block("C", "A"));
    branches.apply_or_create(block("D", "B"));
    branches.apply_or_create(block("E", "genesis"));
    assert_eq!(branches.len(), 3);
    let mut hashes = tip_hashes(&branches);
    hashes.sort();
    assert_eq!(
        hashes,
        vec!["C".to_string(), "D".to_string(), "E".to_string()]
    );
}

#[test]
fn no_two_tips_report_equal_hashes() {
    let mut branches = Branches::new();
    branches.apply_or_create(block("A", "genesis"));
    branches.apply_or_create(block("B", "A"));
    branches.apply_or_create(block("C", "A"));
    branches.apply_or_create(block("D", "B"));
    let hashes = tip_hashes(&branches);
    for i in 0..hashes.len() {
        for j in 0..hashes.len() {
            if i != j {
                assert_ne!(hashes[i], hashes[j]);
            }
        }
    }
}

#[test]
fn direct_update_keeps_registry_size_and_shows_in_snapshot() {
    let mut branches = Branches::new();
    let handle = branches.apply_or_create(block("A", "genesis"));
    branches.apply_or_create(block("X", "other"));
    let size_before = branches.len();

    let previous = handle.update_ref(&mut branches, block("B", "A"));
    assert_eq!(previous.hash(), "A");
    assert_eq!(branches.len(), size_before);
    let snapshot = tip_hashes(&branches);
    assert!(snapshot.contains(&"B".to_string()));
    assert!(!snapshot.contains(&"A".to_string()));
}

#[test]
fn continue_with_only_extends_a_matching_tip() {
    let mut branches = Branches::new();
    let handle = branches.apply_or_create(block("A", "genesis"));
    assert!(!handle.continue_with(&mut branches, &block("C", "nope")));
    assert_eq!(tip_hashes(&branches), vec!["A".to_string()]);
    assert!(handle.continue_with(&mut branches, &block("B", "A")));
    assert_eq!(tip_hashes(&branches), vec!["B".to_string()]);
}

#[test]
fn add_appends_a_branch_and_returns_its_handle() {
    let mut branches = Branches::new();
    let first = branches.add(block("A", "genesis"));
    let second = branches.add(block("B", "A"));
    assert_eq!(first.index(), 0);
    assert_eq!(second.index(), 1);
    assert_eq!(branches.len(), 2);
    assert_eq!(second.get_ref(&branches).hash(), "B");
}

#[test]
fn get_ref_reads_the_current_tip() {
    let mut branches = Branches::new();
    let handle = branches.apply_or_create(block("A", "genesis"));
    assert_eq!(handle.get_ref(&branches).hash(), "A");
    branches.apply_or_create(block("B", "A"));
    assert_eq!(handle.get_ref(&branches).hash(), "B");
}
