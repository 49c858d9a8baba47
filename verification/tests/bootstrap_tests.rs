use raft_driver::bootstrap::Bootstrap;

#[test]
fn bootstrap_walks_follower_range_in_order() {
    let mut b = Bootstrap::new(5);
    assert_eq!(b.pending(), Some(2));
    b.on_outcome(true);
    assert_eq!(b.pending(), Some(3));
    b.on_outcome(true);
    b.on_outcome(true);
    assert_eq!(b.pending(), Some(5));
    b.on_outcome(true);
    assert_eq!(b.pending(), None);
}

#[test]
fn rejected_outcome_retries_the_same_follower() {
    let mut b = Bootstrap::new(3);
    assert_eq!(b.pending(), Some(2));
    b.on_outcome(false);
    assert_eq!(b.pending(), Some(2));
    b.on_outcome(false);
    assert_eq!(b.pending(), Some(2));
    b.on_outcome(true);
    assert_eq!(b.pending(), Some(3));
}

#[test]
fn smallest_cluster_has_one_follower() {
    let mut b = Bootstrap::new(2);
    assert_eq!(b.pending(), Some(2));
    b.on_outcome(true);
    assert_eq!(b.pending(), None);
}
