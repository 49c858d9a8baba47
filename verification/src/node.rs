use vstd::prelude::*;

use crate::engine::bootstrap_snapshot;
use crate::engine::engine_step;
use crate::engine::message_class;
use crate::engine::message_to;
use crate::engine::new_config;
use crate::engine::new_raw_node;
use crate::engine::new_storage;
use crate::engine::storage_install_snapshot;
use crate::engine::EngineHandle;
use crate::engine::MessageClass;
use raft::prelude::Message;
use std::collections::HashMap;
use std::sync::mpsc::Receiver;
use std::sync::mpsc::Sender;

verus! {

broadcast use vstd::std_specs::hash::group_hash_axioms;

/// Ticks a replica waits before starting an election.
pub const ELECTION_TICK: usize = 10;

/// Ticks between two heartbeats of a leader.
pub const HEARTBEAT_TICK: usize = 3;

/// The engine configuration this driver runs its replicas with: the default
/// configuration, with the driver's election and heartbeat tick counts.
pub fn example_config() -> raft::Config {
    new_config(0, ELECTION_TICK, HEARTBEAT_TICK)
}

/// Whether a message may boot a replica that has no engine yet: a pre-vote
/// request, or a heartbeat that carries no commit progress.
pub open spec fn is_initial_class(c: MessageClass) -> bool {
    match c {
        MessageClass::RequestPreVote => true,
        MessageClass::Heartbeat { commit } => commit == 0,
        MessageClass::Other => false,
    }
}

/// Whether a message class qualifies to boot an engine-less replica.
pub fn check_initial_class(c: &MessageClass) -> (r: bool)
    ensures
        r == is_initial_class(*c),
{
    match c {
        MessageClass::RequestPreVote => true,
        MessageClass::Heartbeat { commit } => *commit == 0,
        MessageClass::Other => false,
    }
}

/// Whether a protocol message may boot a replica that has no engine yet.
pub fn is_initial_msg(msg: &Message) -> bool {
    let class = message_class(msg);
    check_initial_class(&class)
}

/// One replica: an optional running engine, its inbound mailbox, the outbound
/// mailboxes of every replica, and the local key/value state machine.
pub struct Node {
    pub raft_group: Option<EngineHandle>,
    pub my_mailbox: Receiver<Message>,
    pub mailboxes: HashMap<u64, Sender<Message>>,
    pub kv_pairs: HashMap<u16, String>,
}

impl Node {
    /// The seed replica: its engine starts from a bootstrap snapshot in which
    /// it is the single voter.  The state machine starts empty; the replica
    /// keeps the given mailboxes.  Replica ids start at 1.  When the engine
    /// rejects the configuration the replica is left engine-less.
    pub fn create_raft_leader(
        id: u64,
        my_mailbox: Receiver<Message>,
        mailboxes: HashMap<u64, Sender<Message>>,
    ) -> (n: Node)
        requires
            1 <= id,
        ensures
            n.kv_pairs@ == Map::<u16, String>::empty(),
            n.my_mailbox == my_mailbox,
            n.mailboxes == mailboxes,
    {
        let cfg = new_config(id, ELECTION_TICK, HEARTBEAT_TICK);
        let mut voters: Vec<u64> = Vec::new();
        voters.push(id);
        let snap = bootstrap_snapshot(1, 1, voters);
        let storage = new_storage();
        let installed = storage_install_snapshot(&storage, snap);
        let raft_group = if installed {
            new_raw_node(&cfg, storage)
        } else {
            None
        };
        Node { raft_group, my_mailbox, mailboxes, kv_pairs: HashMap::new() }
    }

    /// A follower replica: born without an engine, waiting for a qualifying
    /// bootstrap message.  The state machine starts empty; the replica keeps
    /// the given mailboxes.
    pub fn create_raft_follower(
        my_mailbox: Receiver<Message>,
        mailboxes: HashMap<u64, Sender<Message>>,
    ) -> (n: Node)
        ensures
            n.raft_group is None,
            n.kv_pairs@ == Map::<u16, String>::empty(),
            n.my_mailbox == my_mailbox,
            n.mailboxes == mailboxes,
    {
        Node { raft_group: None, my_mailbox, mailboxes, kv_pairs: HashMap::new() }
    }

    /// Lazily builds this replica's engine from a qualifying bootstrap
    /// message, taking the message's destination as the replica id; any other
    /// message leaves the replica untouched.
    pub fn initailize_raft_from_message(&mut self, msg: &Message)
        ensures
            final(self).kv_pairs@ == old(self).kv_pairs@,
            final(self).mailboxes == old(self).mailboxes,
            final(self).my_mailbox == old(self).my_mailbox,
    {
        if !is_initial_msg(msg) {
            return ;
        }
        let cfg = new_config(message_to(msg), ELECTION_TICK, HEARTBEAT_TICK);
        let storage = new_storage();
        self.raft_group = new_raw_node(&cfg, storage);
    }

    /// Feeds one inbound message to the engine, first booting the engine when
    /// the replica has none and the message qualifies; a non-qualifying
    /// message to an engine-less replica is discarded.  Engine-level step
    /// failures are swallowed.  The state machine is never touched here.
    pub fn step(&mut self, msg: Message)
        ensures
            final(self).kv_pairs@ == old(self).kv_pairs@,
            final(self).mailboxes == old(self).mailboxes,
            final(self).my_mailbox == old(self).my_mailbox,
    {
        if self.raft_group.is_none() {
            if is_initial_msg(&msg) {
                self.initailize_raft_from_message(&msg);
            } else {
                return ;
            }
        }
        match &mut self.raft_group {
            Some(rn) => {
                let _taken = engine_step(rn, msg);
            },
            None => {},
        }
    }
}

} // verus!
