use vstd::prelude::*;

use crate::engine::clone_conf_change;
use crate::engine::completion_channel;
use raft::prelude::ConfChange;
use std::sync::mpsc::Receiver;
use std::sync::mpsc::SyncSender;

verus! {

/// A pending client request: exactly one of a normal put, a membership
/// change, or a leadership transfer, plus the log index the engine assigned
/// (0 until accepted) and the one-shot completion channel back to the
/// proposer.
pub struct Proposal {
    pub normal: Option<(u16, String)>,
    pub conf_change: Option<ConfChange>,
    pub transfer_leader: Option<u16>,
    pub proposed: u64,
    pub propose_success: SyncSender<bool>,
}

/// The payloads of two proposals are the same request.
pub open spec fn same_payload(a: Proposal, b: Proposal) -> bool {
    &&& a.normal == b.normal
    &&& a.conf_change == b.conf_change
    &&& a.transfer_leader == b.transfer_leader
}

impl Proposal {
    /// A fresh membership-change proposal carrying the given change, not yet
    /// submitted, and the receiving end of its completion signal.
    pub fn conf_change(cc: &ConfChange) -> (r: (Proposal, Receiver<bool>))
        ensures
            r.0.normal is None,
            r.0.conf_change == Some(*cc),
            r.0.transfer_leader is None,
            r.0.proposed == 0,
    {
        let (tx, rx) = completion_channel();
        let proposal = Proposal {
            normal: None,
            conf_change: Some(clone_conf_change(cc)),
            transfer_leader: None,
            proposed: 0,
            propose_success: tx,
        };
        (proposal, rx)
    }

    /// A fresh put proposal for one key/value pair, not yet submitted, and
    /// the receiving end of its completion signal.
    pub fn normal(key: u16, value: String) -> (r: (Proposal, Receiver<bool>))
        ensures
            r.0.normal == Some((key, value)),
            r.0.conf_change is None,
            r.0.transfer_leader is None,
            r.0.proposed == 0,
    {
        let (tx, rx) = completion_channel();
        let proposal = Proposal {
            normal: Some((key, value)),
            conf_change: None,
            transfer_leader: None,
            proposed: 0,
            propose_success: tx,
        };
        (proposal, rx)
    }
}

} // verus!
