//! Trusted boundary to the consensus engine, its protocol types, and the
//! completion channels.  Every function here is a thin wrapper around one
//! outside call; Verus believes the stated contracts without reading the
//! bodies.

use vstd::prelude::*;

use protobuf::Message as PbMessage;
use raft::storage::MemStorage;
use raft::LightReady;
use raft::RawNode;
use raft::Ready;
use raft::StateRole;
use raft::Storage;
use std::sync::mpsc::Receiver;
use std::sync::mpsc::Sender;
use std::sync::mpsc::SyncSender;

verus! {

/// Handle on one replica's running consensus engine.  Opaque to the
/// verifier: everything the driver learns of it comes through the trusted
/// wrappers below.
#[verifier::external_body]
pub struct EngineHandle {
    inner: RawNode<MemStorage>,
}

impl EngineHandle {
    /// Relies on raft::RawNode::tick: advances the engine's logical clock.
    #[verifier::external_body]
    pub fn tick(&mut self) -> bool {
        self.inner.tick()
    }

    /// Relies on raft::Raft::state: whether this replica currently leads.
    #[verifier::external_body]
    pub fn is_leader(&self) -> bool {
        self.inner.raft.state == StateRole::Leader
    }

    /// Relies on raft::Storage::initial_state of this node's store: the ids
    /// of the voters in the persisted configuration state.
    #[verifier::external_body]
    pub fn voter_ids(&self) -> Vec<u64> {
        match self.inner.raft.raft_log.store.initial_state() {
            Ok(rs) => rs.conf_state.voters.clone(),
            Err(_) => Vec::new(),
        }
    }
}

#[verifier::external_type_specification]
#[verifier::external_body]
pub struct ExMemStorage(MemStorage);

#[verifier::external_type_specification]
#[verifier::external_body]
pub struct ExReady(Ready);

#[verifier::external_type_specification]
#[verifier::external_body]
pub struct ExLightReady(LightReady);

#[verifier::external_type_specification]
#[verifier::external_body]
pub struct ExConfig(raft::Config);

#[verifier::external_type_specification]
#[verifier::external_body]
pub struct ExMessage(raft::prelude::Message);

#[verifier::external_type_specification]
#[verifier::external_body]
pub struct ExSnapshot(raft::prelude::Snapshot);

#[verifier::external_type_specification]
#[verifier::external_body]
pub struct ExEntry(raft::prelude::Entry);

#[verifier::external_type_specification]
#[verifier::external_body]
pub struct ExConfChange(raft::prelude::ConfChange);

#[verifier::external_type_specification]
#[verifier::external_body]
pub struct ExConfState(raft::prelude::ConfState);

#[verifier::external_type_specification]
#[verifier::external_body]
#[verifier::reject_recursive_types(T)]
pub struct ExSender<T>(Sender<T>);

#[verifier::external_type_specification]
#[verifier::external_body]
#[verifier::reject_recursive_types(T)]
pub struct ExSyncSender<T>(SyncSender<T>);

#[verifier::external_type_specification]
#[verifier::external_body]
#[verifier::reject_recursive_types(T)]
pub struct ExReceiver<T>(Receiver<T>);

/// What the driver reads of a protocol message: enough to recognise the
/// messages that may boot a fresh replica.
pub enum MessageClass {
    RequestPreVote,
    Heartbeat { commit: u64 },
    Other,
}

/// Relies on raft::Config: engine configuration from a replica id and the two
/// timeout tick counts.
#[verifier::external_body]
pub(crate) fn new_config(id: u64, election_tick: usize, heartbeat_tick: usize) -> raft::Config {
    let mut cfg = raft::Config::default();
    cfg.id = id;
    cfg.election_tick = election_tick;
    cfg.heartbeat_tick = heartbeat_tick;
    cfg
}

/// Relies on raft::prelude::Snapshot: a snapshot whose metadata carries the
/// given index, term and voter set.
#[verifier::external_body]
pub(crate) fn bootstrap_snapshot(index: u64, term: u64, voters: Vec<u64>) -> raft::prelude::Snapshot {
    let mut s = raft::prelude::Snapshot::default();
    s.mut_metadata().index = index;
    s.mut_metadata().term = term;
    s.mut_metadata().mut_conf_state().voters = voters;
    s
}

/// Relies on raft::storage::MemStorage::new.
#[verifier::external_body]
pub(crate) fn new_storage() -> MemStorage {
    MemStorage::new()
}

/// Relies on MemStorageCore::apply_snapshot; reports whether the store took
/// the snapshot.
#[verifier::external_body]
pub(crate) fn storage_install_snapshot(store: &MemStorage, snap: raft::prelude::Snapshot) -> bool {
    store.wl().apply_snapshot(snap).is_ok()
}

/// Relies on raft::RawNode::new; yields no engine when the configuration is
/// rejected.  RawNode::new panics outright on the reserved id 0 before
/// returning its result, so that id is refused here instead.  The engine
/// logs nowhere.
#[verifier::external_body]
pub(crate) fn new_raw_node(cfg: &raft::Config, storage: MemStorage) -> Option<EngineHandle> {
    if cfg.id == 0 {
        return None;
    }
    let logger = slog::Logger::root(slog::Discard, slog::OwnedKV(()));
    RawNode::new(cfg, storage, &logger).ok().map(|inner| EngineHandle { inner })
}

/// Relies on raft::RawNode::step; reports whether the engine took the message.
#[verifier::external_body]
pub(crate) fn engine_step(rn: &mut EngineHandle, msg: raft::prelude::Message) -> bool {
    rn.inner.step(msg).is_ok()
}

/// Relies on raft::RaftLog::last_index.
#[verifier::external_body]
pub(crate) fn engine_last_index(rn: &EngineHandle) -> u64 {
    rn.inner.raft.raft_log.last_index()
}

/// Relies on raft::RawNode::propose; reports whether the engine accepted the
/// payload.
#[verifier::external_body]
pub(crate) fn engine_propose_data(rn: &mut EngineHandle, payload: &str) -> bool {
    rn.inner.propose(Vec::new(), payload.as_bytes().to_vec()).is_ok()
}

/// Relies on raft::RawNode::propose_conf_change.
#[verifier::external_body]
pub(crate) fn engine_propose_conf_change(
    rn: &mut EngineHandle,
    cc: &raft::prelude::ConfChange,
) -> bool {
    rn.inner.propose_conf_change(Vec::new(), cc.clone()).is_ok()
}

/// Relies on raft::RawNode::has_ready.
#[verifier::external_body]
pub(crate) fn engine_has_ready(rn: &EngineHandle) -> bool {
    rn.inner.has_ready()
}

/// Relies on raft::RawNode::ready: takes one cycle's pending output.
#[verifier::external_body]
pub(crate) fn engine_ready(rn: &mut EngineHandle) -> Ready {
    rn.inner.ready()
}

/// Relies on raft::Ready::take_messages.
#[verifier::external_body]
pub(crate) fn ready_take_messages(rd: &mut Ready) -> Vec<raft::prelude::Message> {
    rd.take_messages()
}

/// Relies on raft::Ready::snapshot.
#[verifier::external_body]
pub(crate) fn ready_snapshot(rd: &Ready) -> raft::prelude::Snapshot {
    rd.snapshot().clone()
}

/// Relies on raft::prelude::Snapshot: whether the snapshot is the empty
/// (default) one, which carries nothing to apply.
#[verifier::external_body]
pub(crate) fn snapshot_is_empty(snap: &raft::prelude::Snapshot) -> bool {
    *snap == raft::prelude::Snapshot::default()
}

/// Relies on MemStorageCore::apply_snapshot on this node's own store.
#[verifier::external_body]
pub(crate) fn node_apply_snapshot(rn: &EngineHandle, snap: raft::prelude::Snapshot) -> bool {
    rn.inner.raft.raft_log.store.wl().apply_snapshot(snap).is_ok()
}

/// Relies on raft::Ready::take_committed_entries.
#[verifier::external_body]
pub(crate) fn ready_take_committed_entries(rd: &mut Ready) -> Vec<raft::prelude::Entry> {
    rd.take_committed_entries()
}

/// Relies on raft::Ready::take_entries: the new log entries to persist.
#[verifier::external_body]
pub(crate) fn ready_take_entries(rd: &mut Ready) -> Vec<raft::prelude::Entry> {
    rd.take_entries()
}

/// Relies on MemStorageCore::append on this node's own store.  The store
/// panics on compacted or non-contiguous entries; those documented
/// conditions are refused here first, so the call cannot panic.
#[verifier::external_body]
pub(crate) fn node_append_entries(rn: &EngineHandle, ents: &Vec<raft::prelude::Entry>) -> bool {
    if ents.is_empty() {
        return true;
    }
    let store = &rn.inner.raft.raft_log.store;
    match (store.first_index(), store.last_index()) {
        (Ok(first), Ok(last))
            if first <= ents[0].index
                && last.checked_add(1).map_or(false, |next| next >= ents[0].index) => {
            store.wl().append(ents).is_ok()
        },
        _ => false,
    }
}

/// Relies on raft::Ready::hs and MemStorageCore::set_hardstate: persists the
/// cycle's hard state, if it changed.
#[verifier::external_body]
pub(crate) fn node_persist_hard_state(rn: &EngineHandle, rd: &Ready) {
    if let Some(hs) = rd.hs() {
        rn.inner.raft.raft_log.store.wl().set_hardstate(hs.clone());
    }
}

/// Relies on raft::Ready::take_persisted_messages.
#[verifier::external_body]
pub(crate) fn ready_take_persisted_messages(rd: &mut Ready) -> Vec<raft::prelude::Message> {
    rd.take_persisted_messages()
}

/// Relies on raft::RawNode::advance.
#[verifier::external_body]
pub(crate) fn engine_advance(rn: &mut EngineHandle, rd: Ready) -> LightReady {
    rn.inner.advance(rd)
}

/// Relies on raft::LightReady::commit_index and
/// MemStorageCore::mut_hard_state: records the advanced commit index.
#[verifier::external_body]
pub(crate) fn node_update_commit(rn: &EngineHandle, lr: &LightReady) {
    if let Some(commit) = lr.commit_index() {
        rn.inner.raft.raft_log.store.wl().mut_hard_state().set_commit(commit);
    }
}

/// Relies on raft::LightReady::take_messages.
#[verifier::external_body]
pub(crate) fn light_take_messages(lr: &mut LightReady) -> Vec<raft::prelude::Message> {
    lr.take_messages()
}

/// Relies on raft::LightReady::take_committed_entries.
#[verifier::external_body]
pub(crate) fn light_take_committed_entries(lr: &mut LightReady) -> Vec<raft::prelude::Entry> {
    lr.take_committed_entries()
}

/// Relies on raft::RawNode::advance_apply.
#[verifier::external_body]
pub(crate) fn engine_advance_apply(rn: &mut EngineHandle) {
    rn.inner.advance_apply()
}

/// Relies on raft::RawNode::apply_conf_change; yields the new configuration
/// state, or nothing when the engine rejects the change.
#[verifier::external_body]
pub(crate) fn engine_apply_conf_change(
    rn: &mut EngineHandle,
    cc: &raft::prelude::ConfChange,
) -> Option<raft::prelude::ConfState> {
    rn.inner.apply_conf_change(cc).ok()
}

/// Relies on MemStorageCore::set_conf_state on this node's own store.
#[verifier::external_body]
pub(crate) fn node_set_conf_state(rn: &EngineHandle, cs: raft::prelude::ConfState) {
    rn.inner.raft.raft_log.store.wl().set_conf_state(cs);
}

/// Relies on the message's destination field.
#[verifier::external_body]
pub(crate) fn message_to(msg: &raft::prelude::Message) -> u64 {
    msg.to
}

/// Relies on Message::get_msg_type and the commit field: tells the message
/// kinds the driver reads apart, moving the commit index out of heartbeats.
#[verifier::external_body]
pub(crate) fn message_class(msg: &raft::prelude::Message) -> MessageClass {
    match msg.get_msg_type() {
        raft::prelude::MessageType::MsgRequestPreVote => MessageClass::RequestPreVote,
        raft::prelude::MessageType::MsgHeartbeat => MessageClass::Heartbeat { commit: msg.commit },
        _ => MessageClass::Other,
    }
}

/// Relies on std::sync::mpsc::Sender::send; reports whether the mailbox was
/// still reachable.
#[verifier::external_body]
pub(crate) fn route_message(tx: &Sender<raft::prelude::Message>, msg: raft::prelude::Message) -> bool {
    tx.send(msg).is_ok()
}

/// Relies on the entry's data field: whether the payload is empty.
#[verifier::external_body]
pub(crate) fn entry_is_empty(e: &raft::prelude::Entry) -> bool {
    e.data.is_empty()
}

/// Relies on Entry::get_entry_type: whether this is a configuration-change
/// entry.
#[verifier::external_body]
pub(crate) fn entry_is_conf_change(e: &raft::prelude::Entry) -> bool {
    e.get_entry_type() == raft::prelude::EntryType::EntryConfChange
}

/// Relies on std::str::from_utf8: the payload as text, or nothing when it is
/// not UTF-8.
#[verifier::external_body]
pub(crate) fn entry_text(e: &raft::prelude::Entry) -> Option<String> {
    std::str::from_utf8(&e.data).ok().map(|s| s.to_owned())
}

/// Relies on protobuf::Message::merge_from_bytes: the decoded configuration
/// change, or nothing when the payload does not parse.
#[verifier::external_body]
pub(crate) fn entry_conf_change(e: &raft::prelude::Entry) -> Option<raft::prelude::ConfChange> {
    let mut cc = raft::prelude::ConfChange::default();
    cc.merge_from_bytes(&e.data).ok().map(|_u| cc)
}

/// Relies on ConfChange's derived Clone: the copy equals the original.
#[verifier::external_body]
pub(crate) fn clone_conf_change(cc: &raft::prelude::ConfChange) -> (r: raft::prelude::ConfChange)
    ensures
        r == *cc,
{
    cc.clone()
}

/// Relies on std::sync::mpsc::sync_channel: a fresh one-shot completion
/// channel with room for the single verdict.
#[verifier::external_body]
pub(crate) fn completion_channel() -> (SyncSender<bool>, Receiver<bool>) {
    std::sync::mpsc::sync_channel(1)
}

/// Relies on std::sync::mpsc::SyncSender::send: delivers the verdict to the
/// proposer; a verdict to a proposer that went away is dropped.
#[verifier::external_body]
pub(crate) fn fire_completion(tx: &SyncSender<bool>, verdict: bool) {
    let _ = tx.send(verdict);
}

} // verus!
