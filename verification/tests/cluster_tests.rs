use std::collections::HashMap;
use std::collections::VecDeque;
use std::sync::mpsc;
use std::sync::mpsc::Receiver;
use std::sync::mpsc::TryRecvError;

use raft::prelude::ConfChange;
use raft::prelude::ConfChangeType;

use raft_driver::bootstrap::Bootstrap;
use raft_driver::driver::dispatch_pending;
use raft_driver::driver::on_ready;
use raft_driver::node::Node;
use raft_driver::proposal::Proposal;

/// One cooperative pass over every replica: drain its inbound mailbox, tick,
/// dispatch pending proposals while it leads, and run one ready cycle.
fn drive_once(nodes: &mut Vec<Node>, proposals: &mut VecDeque<Proposal>) {
    for node in nodes.iter_mut() {
        loop {
            match node.my_mailbox.try_recv() {
                Ok(msg) => node.step(msg),
                Err(TryRecvError::Empty) => break,
                Err(TryRecvError::Disconnected) => break,
            }
        }
        let rn = match node.raft_group.as_mut() {
            Some(r) => r,
            None => continue,
        };
        rn.tick();
        if rn.is_leader() {
            dispatch_pending(rn, proposals);
        }
        on_ready(rn, &mut node.kv_pairs, &node.mailboxes, proposals).expect("ready cycle");
    }
}

fn await_verdict(
    nodes: &mut Vec<Node>,
    proposals: &mut VecDeque<Proposal>,
    rx: &Receiver<bool>,
) -> bool {
    for _ in 0..5000 {
        drive_once(nodes, proposals);
        match rx.try_recv() {
            Ok(v) => return v,
            Err(TryRecvError::Empty) => {},
            Err(TryRecvError::Disconnected) => panic!("completion signal lost"),
        }
    }
    panic!("no verdict within the bounded window");
}

fn build_cluster() -> Vec<Node> {
    let mut txs = Vec::new();
    let mut rxs = Vec::new();
    for _ in 0..5 {
        let (tx, rx) = mpsc::channel();
        txs.push(tx);
        rxs.push(rx);
    }
    let mut nodes = Vec::new();
    for (i, rx) in rxs.into_iter().enumerate() {
        let mut mailboxes = HashMap::new();
        for (j, tx) in txs.iter().enumerate() {
            mailboxes.insert((j + 1) as u64, tx.clone());
        }
        let node = if i == 0 {
            Node::create_raft_leader(1, rx, mailboxes)
        } else {
            Node::create_raft_follower(rx, mailboxes)
        };
        nodes.push(node);
    }
    nodes
}

fn elect_seed(nodes: &mut Vec<Node>, proposals: &mut VecDeque<Proposal>) {
    for _ in 0..500 {
        drive_once(nodes, proposals);
        if nodes[0].raft_group.as_ref().map(|r| r.is_leader()) == Some(true) {
            return;
        }
    }
    panic!("the seed replica never became leader");
}

#[test]
fn end_to_end_cluster_commits_and_converges() {
    let mut nodes = build_cluster();
    let mut proposals: VecDeque<Proposal> = VecDeque::new();
    elect_seed(&mut nodes, &mut proposals);

    // Bootstrap followers 2..=5, one membership change in flight at a time.
    let mut boot = Bootstrap::new(5);
    while let Some(id) = boot.pending() {
        let mut cc = ConfChange::default();
        cc.node_id = id;
        cc.set_change_type(ConfChangeType::AddNode);
        let (prop, rx) = Proposal::conf_change(&cc);
        proposals.push_back(prop);
        let accepted = await_verdict(&mut nodes, &mut proposals, &rx);
        boot.on_outcome(accepted);
    }

    // Let every follower boot from a heartbeat and catch up with the log
    // before client traffic starts: a follower that still needs a snapshot
    // after entries have been committed would start past them, and snapshots
    // carry no key/value data.
    for _ in 0..200 {
        drive_once(&mut nodes, &mut proposals);
    }
    assert!(nodes.iter().all(|n| n.raft_group.is_some()));

    // Membership convergence: exactly the seed plus every follower.
    let mut voters = nodes[0].raft_group.as_ref().expect("engine").voter_ids();
    voters.sort();
    voters.dedup();
    assert_eq!(voters, vec![1, 2, 3, 4, 5]);

    // 100 proposals; every completion signal fires `true`.
    for i in 0..100u16 {
        let (prop, rx) = Proposal::normal(i, format!("value{}", i));
        proposals.push_back(prop);
        assert!(await_verdict(&mut nodes, &mut proposals, &rx));
    }
    assert!(proposals.is_empty());

    // The leader's state machine holds all 100 pairs.
    for i in 0..100u16 {
        let expected = format!("value{}", i);
        assert_eq!(
            nodes[0].kv_pairs.get(&i).map(|s| s.as_str()),
            Some(expected.as_str())
        );
    }

    // Follower state machines converge to the same pairs within a bounded
    // number of ticks.
    for _ in 0..20000 {
        drive_once(&mut nodes, &mut proposals);
        if nodes.iter().all(|n| n.kv_pairs.len() == 100) {
            break;
        }
    }
    for (ni, node) in nodes.iter().enumerate() {
        let missing: Vec<u16> = (0..100u16).filter(|k| !node.kv_pairs.contains_key(k)).collect();
        assert!(missing.is_empty(), "replica {} lacks keys {:?}", ni + 1, missing);
        for i in 0..100u16 {
            let expected = format!("value{}", i);
            assert_eq!(node.kv_pairs.get(&i).map(|s| s.as_str()), Some(expected.as_str()));
        }
    }
}

#[test]
fn resolution_is_fifo_and_exactly_once() {
    let mut nodes = build_cluster();
    let mut proposals: VecDeque<Proposal> = VecDeque::new();
    elect_seed(&mut nodes, &mut proposals);

    // Two proposals accepted by the same leader, submitted in order.
    let (p1, rx1) = Proposal::normal(1, "first".to_string());
    let (p2, rx2) = Proposal::normal(2, "second".to_string());
    proposals.push_back(p1);
    proposals.push_back(p2);

    // When the later proposal resolves, the earlier one must already have
    // resolved: its verdict is waiting in its channel.
    assert!(await_verdict(&mut nodes, &mut proposals, &rx2));
    assert_eq!(rx1.try_recv(), Ok(true));

    // Exactly once: no second verdict ever arrives on either channel.  The
    // resolved proposals were dropped, so the channels now report only the
    // hung-up sender, never another value.
    for _ in 0..50 {
        drive_once(&mut nodes, &mut proposals);
    }
    assert_eq!(rx1.try_recv(), Err(TryRecvError::Disconnected));
    assert_eq!(rx2.try_recv(), Err(TryRecvError::Disconnected));
}
