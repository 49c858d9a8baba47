use vstd::prelude::*;

use crate::codec::decode_entry;
use crate::codec::decode_spec;
use crate::codec::encode_entry;
use crate::engine::engine_advance;
use crate::engine::engine_advance_apply;
use crate::engine::engine_apply_conf_change;
use crate::engine::engine_has_ready;
use crate::engine::engine_last_index;
use crate::engine::engine_propose_conf_change;
use crate::engine::engine_propose_data;
use crate::engine::engine_ready;
use crate::engine::entry_conf_change;
use crate::engine::entry_is_conf_change;
use crate::engine::entry_is_empty;
use crate::engine::entry_text;
use crate::engine::fire_completion;
use crate::engine::light_take_committed_entries;
use crate::engine::light_take_messages;
use crate::engine::message_to;
use crate::engine::node_append_entries;
use crate::engine::node_apply_snapshot;
use crate::engine::node_persist_hard_state;
use crate::engine::node_set_conf_state;
use crate::engine::node_update_commit;
use crate::engine::ready_snapshot;
use crate::engine::ready_take_committed_entries;
use crate::engine::ready_take_entries;
use crate::engine::ready_take_messages;
use crate::engine::ready_take_persisted_messages;
use crate::engine::route_message;
use crate::engine::snapshot_is_empty;
use crate::engine::EngineHandle;
use crate::proposal::same_payload;
use crate::proposal::Proposal;
use raft::prelude::ConfChange;
use raft::prelude::Entry;
use raft::prelude::Message;
use std::collections::HashMap;
use std::collections::VecDeque;
use std::sync::mpsc::Sender;

verus! {

broadcast use vstd::std_specs::hash::group_hash_axioms;

/// How one ready cycle fails: the durable store refused the cycle's snapshot;
/// a committed payload was a protocol violation (neither a configuration
/// change nor a well-formed normal entry); or the store refused the cycle's
/// new log entries.
#[derive(PartialEq, Eq, Structural, Clone, Copy, Debug)]
pub enum DriverError {
    SnapshotFailure,
    ProtocolViolation,
    StorageFailure,
}

/// One committed entry, as the driver reads it: a heartbeat placeholder, a
/// configuration change, the text of a normal entry, or a payload that could
/// not even be read.
pub enum CommittedEntry {
    Empty,
    Config(ConfChange),
    Normal(String),
    Malformed,
}

/// Whether a committed entry can be applied without a protocol violation.
pub open spec fn entry_ok(e: CommittedEntry) -> bool {
    match e {
        CommittedEntry::Empty => true,
        CommittedEntry::Config(_) => true,
        CommittedEntry::Normal(s) => decode_spec(s@) is Some,
        CommittedEntry::Malformed => false,
    }
}

pub open spec fn all_entries_ok(es: Seq<CommittedEntry>) -> bool {
    forall|i: int| 0 <= i < es.len() ==> entry_ok(#[trigger] es[i])
}

/// The state machine as a mathematical map from keys to value texts.
pub open spec fn kv_view(m: HashMap<u16, String>) -> Map<u16, Seq<char>> {
    Map::new(|k: u16| m@.dom().contains(k), |k: u16| m@[k]@)
}

/// The state machine after applying a batch of committed entries in log
/// order: each well-formed normal entry upserts its key/value pair; all other
/// entries leave it unchanged.
pub open spec fn kv_after(kv: Map<u16, Seq<char>>, es: Seq<CommittedEntry>) -> Map<u16, Seq<char>>
    decreases es.len(),
{
    if es.len() == 0 {
        kv
    } else {
        let prev = kv_after(kv, es.drop_last());
        match es.last() {
            CommittedEntry::Normal(s) => match decode_spec(s@) {
                Some(kv2) => prev.insert(kv2.0, kv2.1),
                None => prev,
            },
            _ => prev,
        }
    }
}

/// A queue after one dispatcher pass over an older queue: front to back,
/// every already-submitted proposal is kept as it is, every pending proposal
/// is either kept with a positive assigned index (the engine accepted it) or
/// removed (the engine rejected it and its signal fired `false`); payloads
/// and their order are never changed.
pub open spec fn submitted_version(n: Proposal, o: Proposal) -> bool {
    same_payload(n, o) && (n.proposed == o.proposed || (o.proposed == 0 && n.proposed > 0))
}

pub open spec fn dispatched_from(new_q: Seq<Proposal>, old_q: Seq<Proposal>) -> bool
    decreases old_q.len(),
{
    if old_q.len() == 0 {
        new_q.len() == 0
    } else {
        ||| (new_q.len() > 0 && submitted_version(new_q[0], old_q[0]) && dispatched_from(
            new_q.drop_first(),
            old_q.drop_first(),
        ))
        ||| (old_q[0].proposed == 0 && dispatched_from(new_q, old_q.drop_first()))
    }
}

/// Appending a kept proposal on both sides preserves the dispatch relation.
proof fn lemma_dispatched_push_keep(n: Seq<Proposal>, o: Seq<Proposal>, x: Proposal, y: Proposal)
    requires
        dispatched_from(n, o),
        submitted_version(x, y),
    ensures
        dispatched_from(n.push(x), o.push(y)),
    decreases o.len(),
{
    if o.len() == 0 {
        assert(n.len() == 0);
        assert(n.push(x).drop_first() =~= n);
        assert(o.push(y).drop_first() =~= o);
        assert(n.push(x)[0] == x);
        assert(o.push(y)[0] == y);
    } else {
        assert(o.push(y)[0] == o[0]);
        assert(o.push(y).drop_first() =~= o.drop_first().push(y));
        if n.len() > 0 && submitted_version(n[0], o[0]) && dispatched_from(
            n.drop_first(),
            o.drop_first(),
        ) {
            lemma_dispatched_push_keep(n.drop_first(), o.drop_first(), x, y);
            assert(n.push(x)[0] == n[0]);
            assert(n.push(x).drop_first() =~= n.drop_first().push(x));
        } else {
            lemma_dispatched_push_keep(n, o.drop_first(), x, y);
        }
    }
}

/// Appending a rejected pending proposal on the old side only preserves the
/// dispatch relation.
proof fn lemma_dispatched_push_drop(n: Seq<Proposal>, o: Seq<Proposal>, y: Proposal)
    requires
        dispatched_from(n, o),
        y.proposed == 0,
    ensures
        dispatched_from(n, o.push(y)),
    decreases o.len(),
{
    if o.len() == 0 {
        assert(n.len() == 0);
        assert(o.push(y)[0] == y);
        assert(o.push(y).drop_first() =~= o);
    } else {
        assert(o.push(y)[0] == o[0]);
        assert(o.push(y).drop_first() =~= o.drop_first().push(y));
        if n.len() > 0 && submitted_version(n[0], o[0]) && dispatched_from(
            n.drop_first(),
            o.drop_first(),
        ) {
            lemma_dispatched_push_drop(n.drop_first(), o.drop_first(), y);
        } else {
            lemma_dispatched_push_drop(n, o.drop_first(), y);
        }
    }
}

/// The dispatcher's decision over the engine's last log index read before
/// and after a submission.  The log advanced: the submission was accepted,
/// and the proposal records the pre-submission next index, the slot the
/// entry occupies; nothing is sent on its channel, resolution waits for
/// commit.  The log did not advance: the submission was rejected, the
/// proposal is returned exactly as it was, and its completion signal fires
/// `false` at once, its single firing.
fn record_submission(last_index1: u64, last_index2: u64, proposal: &mut Proposal) -> (accepted:
    bool)
    requires
        old(proposal).proposed == 0,
    ensures
        accepted == (last_index2 > last_index1),
        same_payload(*final(proposal), *old(proposal)),
        final(proposal).propose_success == old(proposal).propose_success,
        accepted ==> final(proposal).proposed == last_index1 + 1,
        !accepted ==> *final(proposal) == *old(proposal),
{
    if last_index2 > last_index1 {
        proposal.proposed = last_index1 + 1;
        true
    } else {
        fire_completion(&proposal.propose_success, false);
        false
    }
}

/// Submits one pending proposal to the engine: encodes its payload, proposes
/// it, and reads the engine's last log index before and after.  The verdict
/// is `record_submission`'s: rejected (log unchanged) fires the signal
/// `false` and returns the proposal untouched; accepted records the
/// pre-submission next index and sends nothing.  Leadership transfers are
/// recognised but unsupported: callers must not submit them.
pub fn propose(raft_group: &mut EngineHandle, proposal: &mut Proposal) -> (accepted: bool)
    requires
        old(proposal).proposed == 0,
        old(proposal).transfer_leader is None,
    ensures
        same_payload(*final(proposal), *old(proposal)),
        final(proposal).transfer_leader is None,
        final(proposal).propose_success == old(proposal).propose_success,
        accepted <==> final(proposal).proposed > 0,
        !accepted ==> *final(proposal) == *old(proposal),
{
    let last_index1 = engine_last_index(raft_group);
    if let Some(kv) = &proposal.normal {
        let payload = encode_entry(kv.0, kv.1.as_str());
        let _taken = engine_propose_data(raft_group, payload.as_str());
    } else if let Some(cc) = &proposal.conf_change {
        let _taken = engine_propose_conf_change(raft_group, cc);
    }
    let last_index2 = engine_last_index(raft_group);
    record_submission(last_index1, last_index2, proposal)
}

/// One dispatcher pass: walks the shared queue front to back, skips proposals
/// already submitted in an earlier cycle, submits each pending one, and
/// removes those the engine rejected (their signals fired `false` inside
/// `propose`).  The queue afterwards relates to the queue before by
/// `dispatched_from`: order and payloads are preserved, and only rejected
/// pending proposals are gone.
pub fn dispatch_pending(raft_group: &mut EngineHandle, proposals: &mut VecDeque<Proposal>)
    requires
        forall|i: int|
            0 <= i < old(proposals)@.len() ==> (#[trigger] old(
                proposals,
            )@[i]).transfer_leader is None,
    ensures
        dispatched_from(final(proposals)@, old(proposals)@),
        forall|i: int|
            0 <= i < final(proposals)@.len() ==> (#[trigger] final(proposals)@[i]).proposed > 0,
{
    let ghost q0 = proposals@;
    let mut kept: VecDeque<Proposal> = VecDeque::new();
    let ghost mut done: int = 0;
    while proposals.len() > 0
        invariant
            0 <= done <= q0.len(),
            proposals@ =~= q0.skip(done),
            dispatched_from(kept@, q0.take(done)),
            forall|i: int| 0 <= i < kept@.len() ==> (#[trigger] kept@[i]).proposed > 0,
            forall|i: int| 0 <= i < q0.len() ==> (#[trigger] q0[i]).transfer_leader is None,
        decreases proposals@.len(),
    {
        let popped = proposals.pop_front();
        match popped {
            None => {},
            Some(front) => {
                let mut p = front;
                proof {
                    assert(q0.skip(done)[0] == q0[done]);
                    assert(q0.skip(done).subrange(1, q0.skip(done).len() as int) =~= q0.skip(
                        done + 1,
                    ));
                    assert(q0.take(done + 1) =~= q0.take(done).push(q0[done]));
                }
                let ghost orig = q0[done];
                if p.proposed > 0 {
                    proof {
                        lemma_dispatched_push_keep(kept@, q0.take(done), p, orig);
                    }
                    kept.push_back(p);
                } else {
                    let accepted = propose(raft_group, &mut p);
                    if accepted {
                        proof {
                            lemma_dispatched_push_keep(kept@, q0.take(done), p, orig);
                        }
                        kept.push_back(p);
                    } else {
                        proof {
                            lemma_dispatched_push_drop(kept@, q0.take(done), orig);
                        }
                    }
                }
                proof {
                    done = done + 1;
                }
            },
        }
    }
    proof {
        assert(q0.take(done) =~= q0);
    }
    *proposals = kept;
}

/// Routes a batch of outbound protocol messages, each to the mailbox of its
/// destination replica, in order.  Delivery is best effort: an unreachable or
/// unknown mailbox drops the message, and the engine's own retransmission is
/// relied on.
fn send_messages(mailboxes: &HashMap<u64, Sender<Message>>, msgs: Vec<Message>)
{
    let mut msgs = msgs;
    while msgs.len() > 0
        decreases msgs@.len(),
    {
        let msg = msgs.remove(0);
        let to = message_to(&msg);
        match mailboxes.get(&to) {
            Some(tx) => {
                let _delivered = route_message(tx, msg);
            },
            None => {},
        }
    }
}

/// Reads a batch of raw committed entries into what the driver acts on.
fn classify_entries(entries: &Vec<Entry>) -> (r: Vec<CommittedEntry>)
{
    let mut out: Vec<CommittedEntry> = Vec::new();
    let mut idx: usize = 0;
    while idx < entries.len()
        invariant
            idx <= entries@.len(),
        decreases entries@.len() - idx,
    {
        let e = &entries[idx];
        let kind = if entry_is_empty(e) {
            CommittedEntry::Empty
        } else if entry_is_conf_change(e) {
            match entry_conf_change(e) {
                Some(cc) => CommittedEntry::Config(cc),
                None => CommittedEntry::Malformed,
            }
        } else {
            match entry_text(e) {
                Some(s) => CommittedEntry::Normal(s),
                None => CommittedEntry::Malformed,
            }
        };
        out.push(kind);
        idx += 1;
    }
    out
}

/// Applies a batch of committed entries in log order.  Configuration changes
/// go through the engine's own application call and the resulting
/// configuration state is persisted; well-formed normal entries upsert their
/// key/value pair into the state machine; a malformed payload aborts the
/// batch as a protocol violation.  `leader` is this replica's role, read
/// once for the batch: after each non-empty entry, on the leader only, the
/// front proposal of the shared queue is popped and its signal fires `true`.
/// The resolved proposals are exactly the front `n` of the queue, resolved
/// front to back, so resolution order equals submission order; a follower
/// pops nothing and fires nothing.
pub fn apply_committed(
    raft_group: &mut EngineHandle,
    kv_pairs: &mut HashMap<u16, String>,
    proposals: &mut VecDeque<Proposal>,
    entries: Vec<CommittedEntry>,
    leader: bool,
) -> (r: Result<usize, DriverError>)
    ensures
        !leader ==> final(proposals)@ == old(proposals)@,
        match r {
            Ok(n) => {
                &&& all_entries_ok(entries@)
                &&& 0 <= n <= old(proposals)@.len()
                &&& final(proposals)@ =~= old(proposals)@.skip(n as int)
                &&& !leader ==> n == 0
                &&& kv_view(*final(kv_pairs)) == kv_after(kv_view(*old(kv_pairs)), entries@)
            },
            Err(e) => {
                &&& e == DriverError::ProtocolViolation
                &&& !all_entries_ok(entries@)
                &&& exists|n: int|
                    0 <= n <= old(proposals)@.len() && final(proposals)@ =~= old(
                        proposals,
                    )@.skip(n)
                &&& exists|m: int|
                    {
                        &&& 0 <= m < entries@.len()
                        &&& (forall|i: int| 0 <= i < m ==> entry_ok(#[trigger] entries@[i]))
                        &&& !entry_ok(entries@[m])
                        &&& kv_view(*final(kv_pairs)) == kv_after(
                            kv_view(*old(kv_pairs)),
                            entries@.take(m),
                        )
                    }
            },
        },
{
    let ghost q0 = proposals@;
    let ghost kv0 = kv_view(*kv_pairs);
    let mut count: usize = 0;
    let mut idx: usize = 0;
    while idx < entries.len()
        invariant
            0 <= idx <= entries@.len(),
            forall|i: int| 0 <= i < idx ==> entry_ok(#[trigger] entries@[i]),
            count <= idx,
            0 <= count <= q0.len(),
            proposals@ =~= q0.skip(count as int),
            !leader ==> count == 0 && proposals@ == q0,
            kv_view(*kv_pairs) == kv_after(kv0, entries@.take(idx as int)),
            q0 == old(proposals)@,
            kv0 == kv_view(*old(kv_pairs)),
        decreases entries@.len() - idx,
    {
        let ghost kv_prev = kv_view(*kv_pairs);
        proof {
            assert(entries@.take(idx + 1).drop_last() =~= entries@.take(idx as int));
            assert(entries@.take(idx + 1).last() == entries@[idx as int]);
        }
        let e = &entries[idx];
        let mut nonempty = true;
        match e {
            CommittedEntry::Empty => {
                nonempty = false;
            },
            CommittedEntry::Malformed => {
                proof {
                    assert(!entry_ok(entries@[idx as int]));
                    assert(kv_view(*kv_pairs) == kv_after(kv0, entries@.take(idx as int)));
                }
                return Err(DriverError::ProtocolViolation);
            },
            CommittedEntry::Config(cc) => {
                match engine_apply_conf_change(raft_group, cc) {
                    Some(cs) => node_set_conf_state(raft_group, cs),
                    None => {},
                }
            },
            CommittedEntry::Normal(s) => {
                match decode_entry(s.as_str()) {
                    None => {
                        proof {
                            assert(!entry_ok(entries@[idx as int]));
                            assert(kv_view(*kv_pairs) == kv_after(kv0, entries@.take(idx as int)));
                        }
                        return Err(DriverError::ProtocolViolation);
                    },
                    Some(kv) => {
                        kv_pairs.insert(kv.0, kv.1);
                        proof {
                            assert(kv_view(*kv_pairs) =~= kv_prev.insert(kv.0, kv.1@));
                        }
                    },
                }
            },
        }
        proof {
            assert(kv_view(*kv_pairs) =~= kv_after(kv0, entries@.take(idx + 1)));
        }
        if nonempty && leader {
            match proposals.pop_front() {
                Some(p) => {
                    fire_completion(&p.propose_success, true);
                    proof {
                        assert(q0.skip(count as int).subrange(
                            1,
                            q0.skip(count as int).len() as int,
                        ) =~= q0.skip(count + 1));
                    }
                    count += 1;
                },
                None => {},
            }
        }
        idx += 1;
    }
    proof {
        assert(entries@.take(entries@.len() as int) =~= entries@);
    }
    Ok(count)
}

/// Exactly-once resolution, queue side.  `apply_committed` resolves the front
/// `n` proposals of the queue and leaves exactly the rest: the queue splits
/// into the resolved prefix and the surviving suffix, every proposal falls in
/// exactly one of the two, and each side keeps its proposals in place.  So a
/// batch fires each resolved proposal's signal once, and a proposal that
/// survives is untouched.
pub proof fn lemma_batch_resolution_partition(q: Seq<Proposal>, n: int)
    requires
        0 <= n <= q.len(),
    ensures
        q.take(n) + q.skip(n) =~= q,
        q.take(n).len() + q.skip(n).len() == q.len(),
        forall|i: int| 0 <= i < n ==> q.take(n)[i] == q[i],
        forall|i: int| n <= i < q.len() ==> q.skip(n)[i - n] == q[i],
{
}

/// FIFO commit-order correspondence, queue side.  The proposals a batch
/// resolves stand in the resolved prefix at their submission positions: of
/// two proposals accepted by the same leader, the one submitted earlier is
/// resolved earlier, since `apply_committed` pops and fires front to back.
pub proof fn lemma_fifo_resolution_order(q: Seq<Proposal>, n: int, i: int, j: int)
    requires
        0 <= i < j < n <= q.len(),
    ensures
        q.take(n)[i] == q[i],
        q.take(n)[j] == q[j],
{
}

/// One full ready cycle, run only when the engine reports pending output:
/// sends the cycle's messages; applies a non-empty snapshot to the durable
/// store, aborting the whole cycle when the store refuses it (the state
/// machine and the queue are then untouched); applies the committed entries
/// through `apply_committed`; persists the new log entries and hard state;
/// and advances the engine, handling the follow-up messages and committed
/// entries the advance releases.  Whatever happens, the shared queue only
/// ever loses a front prefix: submission order is preserved.
pub fn on_ready(
    raft_group: &mut EngineHandle,
    kv_pairs: &mut HashMap<u16, String>,
    mailboxes: &HashMap<u64, Sender<Message>>,
    proposals: &mut VecDeque<Proposal>,
) -> (r: Result<(), DriverError>)
    ensures
        exists|n: int|
            0 <= n <= old(proposals)@.len() && final(proposals)@ =~= old(proposals)@.skip(n),
        r == Err::<(), DriverError>(DriverError::SnapshotFailure) ==> final(kv_pairs)@ == old(
            kv_pairs,
        )@ && final(proposals)@ == old(proposals)@,
{
    if !engine_has_ready(raft_group) {
        proof {
            assert(proposals@ =~= proposals@.skip(0));
        }
        return Ok(());
    }
    let mut ready = engine_ready(raft_group);
    send_messages(mailboxes, ready_take_messages(&mut ready));
    let snap = ready_snapshot(&ready);
    if !snapshot_is_empty(&snap) {
        if !node_apply_snapshot(raft_group, snap) {
            proof {
                assert(proposals@ =~= proposals@.skip(0));
            }
            return Err(DriverError::SnapshotFailure);
        }
    }
    let ghost q0 = proposals@;
    let committed = ready_take_committed_entries(&mut ready);
    let kinds = classify_entries(&committed);
    let leader = raft_group.is_leader();
    let n1 = match apply_committed(raft_group, kv_pairs, proposals, kinds, leader) {
        Ok(n) => n,
        Err(e) => {
            return Err(e);
        },
    };
    let new_entries = ready_take_entries(&mut ready);
    if !node_append_entries(raft_group, &new_entries) {
        proof {
            assert(q0.skip(n1 as int) =~= proposals@);
        }
        return Err(DriverError::StorageFailure);
    }
    node_persist_hard_state(raft_group, &ready);
    send_messages(mailboxes, ready_take_persisted_messages(&mut ready));
    let mut light = engine_advance(raft_group, ready);
    node_update_commit(raft_group, &light);
    send_messages(mailboxes, light_take_messages(&mut light));
    let late = light_take_committed_entries(&mut light);
    let late_kinds = classify_entries(&late);
    let ghost q1 = proposals@;
    let late_leader = raft_group.is_leader();
    let result = apply_committed(raft_group, kv_pairs, proposals, late_kinds, late_leader);
    engine_advance_apply(raft_group);
    match result {
        Ok(n2) => {
            proof {
                assert(q0.skip(n1 as int).skip(n2 as int) =~= q0.skip(n1 + n2));
            }
            Ok(())
        },
        Err(e) => {
            proof {
                let n2 = choose|n: int| 0 <= n <= q1.len() && proposals@ =~= q1.skip(n);
                assert(q0.skip(n1 as int).skip(n2) =~= q0.skip(n1 + n2));
            }
            Err(e)
        },
    }
}

} // verus!
