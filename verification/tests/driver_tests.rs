use std::collections::HashMap;
use std::sync::mpsc;

use raft::prelude::ConfChange;
use raft::prelude::ConfChangeType;
use raft::prelude::Snapshot;
use raft::storage::MemStorage;
use raft::Storage;

use raft_driver::driver::propose;
use raft_driver::node::Node;
use raft_driver::proposal::Proposal;

#[test]
fn proposal_constructors_start_unsubmitted() {
    let (p, _rx) = Proposal::normal(3, "v".to_string());
    assert_eq!(p.normal, Some((3, "v".to_string())));
    assert!(p.conf_change.is_none());
    assert!(p.transfer_leader.is_none());
    assert_eq!(p.proposed, 0);

    let mut cc = ConfChange::default();
    cc.node_id = 2;
    cc.set_change_type(ConfChangeType::AddNode);
    let (p2, _rx2) = Proposal::conf_change(&cc);
    assert!(p2.normal.is_none());
    assert_eq!(p2.conf_change.as_ref().map(|c| c.node_id), Some(2));
    assert!(p2.transfer_leader.is_none());
    assert_eq!(p2.proposed, 0);
}

#[test]
fn rejected_proposal_fires_false_without_state_change() {
    let (tx, rx) = mpsc::channel();
    let mut mailboxes = HashMap::new();
    mailboxes.insert(1u64, tx);
    let mut node = Node::create_raft_leader(1, rx, mailboxes);
    {
        let rn = node.raft_group.as_mut().expect("engine");
        // A fresh engine is a follower until its election timeout elapses,
        // so the submission must be rejected at once.
        assert!(!rn.is_leader());
        let (mut prop, prx) = Proposal::normal(7, "value7".to_string());
        let accepted = propose(rn, &mut prop);
        assert!(!accepted);
        assert_eq!(prop.proposed, 0);
        assert_eq!(prx.try_recv(), Ok(false));
    }
    assert!(node.kv_pairs.is_empty());
}

#[test]
fn snapshot_application_is_idempotent() {
    let mut s = Snapshot::default();
    s.mut_metadata().index = 5;
    s.mut_metadata().term = 2;
    s.mut_metadata().mut_conf_state().voters = vec![1, 2, 3];

    let once = MemStorage::new();
    once.wl().apply_snapshot(s.clone()).expect("first application");

    let twice = MemStorage::new();
    twice.wl().apply_snapshot(s.clone()).expect("first application");
    let _ = twice.wl().apply_snapshot(s.clone());

    let a = once.initial_state().expect("state");
    let b = twice.initial_state().expect("state");
    assert_eq!(a.hard_state, b.hard_state);
    assert_eq!(a.conf_state, b.conf_state);
    assert_eq!(once.first_index().unwrap(), twice.first_index().unwrap());
    assert_eq!(once.last_index().unwrap(), twice.last_index().unwrap());
}
