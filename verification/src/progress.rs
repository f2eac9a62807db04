//! The progress record that a validator keeps on disk while the cluster
//! restarts, and the records it is made of.
//!
//! Each record has a view that holds its texts and lists as mathematical
//! sequences and maps; contracts speak of the views.

use crate::string_map::StringMap;
use solana_clock::{Epoch, Slot};
use std::collections::HashMap;
use vstd::prelude::*;

verus! {

/// The phase that the record on disk has reached.
#[derive(Clone, Copy, Debug, PartialEq, Eq, Structural)]
pub enum RestartState {
    Init,
    LastVotedForkSlots,
    HeaviestFork,
    GenerateSnapshot,
    Done,
}

impl RestartState {
    /// The place of the phase in the order in which a restart goes through them.
    pub open spec fn rank(self) -> nat {
        match self {
            RestartState::Init => 0,
            RestartState::LastVotedForkSlots => 1,
            RestartState::HeaviestFork => 2,
            RestartState::GenerateSnapshot => 3,
            RestartState::Done => 4,
        }
    }
}

/// The fork that a validator last voted on, as it was published.
#[derive(Debug, PartialEq, Eq)]
pub struct LastVotedForkSlotsRecord {
    pub last_voted_fork_slots: Vec<Slot>,
    pub last_vote_bankhash: String,
    pub shred_version: u32,
    pub wallclock: u64,
}

/// What a `LastVotedForkSlotsRecord` holds, as mathematical values: contracts speak of it.
pub struct LastVotedForkSlotsRecordView {
    pub last_voted_fork_slots: Seq<Slot>,
    pub last_vote_bankhash: Seq<char>,
    pub shred_version: u32,
    pub wallclock: u64,
}

impl View for LastVotedForkSlotsRecord {
    type V = LastVotedForkSlotsRecordView;

    open spec fn view(&self) -> Self::V {
        LastVotedForkSlotsRecordView {
            last_voted_fork_slots: self.last_voted_fork_slots@,
            last_vote_bankhash: self.last_vote_bankhash@,
            shred_version: self.shred_version,
            wallclock: self.wallclock,
        }
    }
}

impl Clone for LastVotedForkSlotsRecord {
    fn clone(&self) -> (copy: Self)
        ensures
            copy@ == self@,
    {
        LastVotedForkSlotsRecord {
            last_voted_fork_slots: self.last_voted_fork_slots.clone(),
            last_vote_bankhash: self.last_vote_bankhash.clone(),
            shred_version: self.shred_version,
            wallclock: self.wallclock,
        }
    }
}

impl LastVotedForkSlotsRecord {
    /// Whether two records hold the same values.
    pub fn same(&self, other: &Self) -> (same: bool)
        ensures
            same == (self@ == other@),
    {
        if self.shred_version != other.shred_version || self.wallclock != other.wallclock
            || self.last_vote_bankhash != other.last_vote_bankhash
            || self.last_voted_fork_slots.len() != other.last_voted_fork_slots.len() {
            return false;
        }
        let mut i: usize = 0;
        while i < self.last_voted_fork_slots.len()
            invariant
                i <= self.last_voted_fork_slots@.len(),
                self.last_voted_fork_slots@.len() == other.last_voted_fork_slots@.len(),
                forall|j: int|
                    0 <= j < i ==> self.last_voted_fork_slots@[j] == other.last_voted_fork_slots@[j],
            decreases self.last_voted_fork_slots@.len() - i,
        {
            if self.last_voted_fork_slots[i] != other.last_voted_fork_slots[i] {
                return false;
            }
            i += 1;
        }
        assert(self.last_voted_fork_slots@ =~= other.last_voted_fork_slots@);
        true
    }
}

/// The stake of one epoch, and how much of it has been heard from.
#[derive(Clone, Copy, Debug, PartialEq, Eq, Structural)]
pub struct LastVotedForkSlotsEpochInfoRecord {
    pub epoch: Epoch,
    pub total_stake: u64,
    pub actively_voting_stake: u64,
    pub actively_voting_for_this_epoch_stake: u64,
}

/// What the first phase ends with: the stake behind each slot, and the
/// stake of each epoch.
#[derive(Clone, Debug, PartialEq, Eq)]
pub struct LastVotedForkSlotsAggregateFinal {
    pub slots_stake_map: HashMap<Slot, u64>,
    pub epoch_infos: Vec<LastVotedForkSlotsEpochInfoRecord>,
}

/// What a `LastVotedForkSlotsAggregateFinal` holds, as mathematical values: contracts speak of it.
pub struct LastVotedForkSlotsAggregateFinalView {
    pub slots_stake_map: Map<Slot, u64>,
    pub epoch_infos: Seq<LastVotedForkSlotsEpochInfoRecord>,
}

impl View for LastVotedForkSlotsAggregateFinal {
    type V = LastVotedForkSlotsAggregateFinalView;

    open spec fn view(&self) -> Self::V {
        LastVotedForkSlotsAggregateFinalView {
            slots_stake_map: self.slots_stake_map@,
            epoch_infos: self.epoch_infos@,
        }
    }
}

/// What the peers have published of their last votes, by peer, and the
/// result once the phase has ended.
#[derive(Clone, Debug, PartialEq, Eq)]
pub struct LastVotedForkSlotsAggregateRecord {
    pub received: StringMap<LastVotedForkSlotsRecord>,
    pub final_result: Option<LastVotedForkSlotsAggregateFinal>,
}

/// What a `LastVotedForkSlotsAggregateRecord` holds, as mathematical values: contracts speak of it.
pub struct LastVotedForkSlotsAggregateRecordView {
    pub received: Map<Seq<char>, LastVotedForkSlotsRecordView>,
    pub final_result: Option<LastVotedForkSlotsAggregateFinalView>,
}

impl View for LastVotedForkSlotsAggregateRecord {
    type V = LastVotedForkSlotsAggregateRecordView;

    open spec fn view(&self) -> Self::V {
        LastVotedForkSlotsAggregateRecordView {
            received: self.received@,
            final_result: match self.final_result {
                Some(result) => Some(result@),
                None => None,
            },
        }
    }
}

/// The fork that a validator holds to be the heaviest.
#[derive(Debug, PartialEq, Eq)]
pub struct HeaviestForkRecord {
    pub slot: Slot,
    pub bankhash: String,
    pub total_active_stake: u64,
    pub shred_version: u32,
    pub wallclock: u64,
    pub from: String,
}

/// What a `HeaviestForkRecord` holds, as mathematical values: contracts speak of it.
pub struct HeaviestForkRecordView {
    pub slot: Slot,
    pub bankhash: Seq<char>,
    pub total_active_stake: u64,
    pub shred_version: u32,
    pub wallclock: u64,
    pub from: Seq<char>,
}

impl View for HeaviestForkRecord {
    type V = HeaviestForkRecordView;

    open spec fn view(&self) -> Self::V {
        HeaviestForkRecordView {
            slot: self.slot,
            bankhash: self.bankhash@,
            total_active_stake: self.total_active_stake,
            shred_version: self.shred_version,
            wallclock: self.wallclock,
            from: self.from@,
        }
    }
}

impl Clone for HeaviestForkRecord {
    fn clone(&self) -> (copy: Self)
        ensures
            copy@ == self@,
    {
        HeaviestForkRecord {
            slot: self.slot,
            bankhash: self.bankhash.clone(),
            total_active_stake: self.total_active_stake,
            shred_version: self.shred_version,
            wallclock: self.wallclock,
            from: self.from.clone(),
        }
    }
}

/// The views of a list of heaviest-fork records.
pub open spec fn heaviest_fork_views(records: Seq<HeaviestForkRecord>) -> Seq<
    HeaviestForkRecordView,
> {
    Seq::new(records.len(), |i: int| records[i]@)
}

/// What the coordinator has heard of the heaviest forks of the others.
#[derive(Clone, Debug, PartialEq, Eq)]
pub struct HeaviestForkAggregateRecord {
    pub received: Vec<HeaviestForkRecord>,
    pub total_active_stake: u64,
}

/// What a `HeaviestForkAggregateRecord` holds, as mathematical values: contracts speak of it.
pub struct HeaviestForkAggregateRecordView {
    pub received: Seq<HeaviestForkRecordView>,
    pub total_active_stake: u64,
}

impl View for HeaviestForkAggregateRecord {
    type V = HeaviestForkAggregateRecordView;

    open spec fn view(&self) -> Self::V {
        HeaviestForkAggregateRecordView {
            received: heaviest_fork_views(self.received@),
            total_active_stake: self.total_active_stake,
        }
    }
}

/// The snapshot that the restart produced.
#[derive(Debug, PartialEq, Eq)]
pub struct GenerateSnapshotRecord {
    pub path: String,
    pub slot: Slot,
    pub bankhash: String,
    pub shred_version: u32,
}

/// What a `GenerateSnapshotRecord` holds, as mathematical values: contracts speak of it.
pub struct GenerateSnapshotRecordView {
    pub path: Seq<char>,
    pub slot: Slot,
    pub bankhash: Seq<char>,
    pub shred_version: u32,
}

impl View for GenerateSnapshotRecord {
    type V = GenerateSnapshotRecordView;

    open spec fn view(&self) -> Self::V {
        GenerateSnapshotRecordView {
            path: self.path@,
            slot: self.slot,
            bankhash: self.bankhash@,
            shred_version: self.shred_version,
        }
    }
}

impl Clone for GenerateSnapshotRecord {
    fn clone(&self) -> (copy: Self)
        ensures
            copy@ == self@,
    {
        GenerateSnapshotRecord {
            path: self.path.clone(),
            slot: self.slot,
            bankhash: self.bankhash.clone(),
            shred_version: self.shred_version,
        }
    }
}

/// Two messages of one peer that disagree, kept for the operator.
#[derive(Clone, Debug, PartialEq, Eq)]
pub struct ConflictMessage {
    pub old_message: String,
    pub new_message: String,
}

/// What a `ConflictMessage` holds, as mathematical values: contracts speak of it.
pub struct ConflictMessageView {
    pub old_message: Seq<char>,
    pub new_message: Seq<char>,
}

impl View for ConflictMessage {
    type V = ConflictMessageView;

    open spec fn view(&self) -> Self::V {
        ConflictMessageView { old_message: self.old_message@, new_message: self.new_message@ }
    }
}

/// The record on disk.
#[derive(Clone, Debug, PartialEq, Eq)]
pub struct WenRestartProgress {
    pub state: RestartState,
    pub my_last_voted_fork_slots: Option<LastVotedForkSlotsRecord>,
    pub last_voted_fork_slots_aggregate: Option<LastVotedForkSlotsAggregateRecord>,
    pub my_heaviest_fork: Option<HeaviestForkRecord>,
    pub heaviest_fork_aggregate: Option<HeaviestForkAggregateRecord>,
    pub my_snapshot: Option<GenerateSnapshotRecord>,
    pub coordinator_heaviest_fork: Option<HeaviestForkRecord>,
    pub conflict_message: StringMap<ConflictMessage>,
}

/// What a `WenRestartProgress` holds, as mathematical values: contracts speak of it.
pub struct WenRestartProgressView {
    pub state: RestartState,
    pub my_last_voted_fork_slots: Option<LastVotedForkSlotsRecordView>,
    pub last_voted_fork_slots_aggregate: Option<LastVotedForkSlotsAggregateRecordView>,
    pub my_heaviest_fork: Option<HeaviestForkRecordView>,
    pub heaviest_fork_aggregate: Option<HeaviestForkAggregateRecordView>,
    pub my_snapshot: Option<GenerateSnapshotRecordView>,
    pub coordinator_heaviest_fork: Option<HeaviestForkRecordView>,
    pub conflict_message: Map<Seq<char>, ConflictMessageView>,
}

impl View for WenRestartProgress {
    type V = WenRestartProgressView;

    open spec fn view(&self) -> Self::V {
        WenRestartProgressView {
            state: self.state,
            my_last_voted_fork_slots: match self.my_last_voted_fork_slots {
                Some(record) => Some(record@),
                None => None,
            },
            last_voted_fork_slots_aggregate: match self.last_voted_fork_slots_aggregate {
                Some(record) => Some(record@),
                None => None,
            },
            my_heaviest_fork: match self.my_heaviest_fork {
                Some(record) => Some(record@),
                None => None,
            },
            heaviest_fork_aggregate: match self.heaviest_fork_aggregate {
                Some(record) => Some(record@),
                None => None,
            },
            my_snapshot: match self.my_snapshot {
                Some(record) => Some(record@),
                None => None,
            },
            coordinator_heaviest_fork: match self.coordinator_heaviest_fork {
                Some(record) => Some(record@),
                None => None,
            },
            conflict_message: self.conflict_message@,
        }
    }
}

/// The record of a restart that has not begun.
pub open spec fn fresh_progress() -> WenRestartProgressView {
    WenRestartProgressView {
        state: RestartState::Init,
        my_last_voted_fork_slots: None,
        last_voted_fork_slots_aggregate: None,
        my_heaviest_fork: None,
        heaviest_fork_aggregate: None,
        my_snapshot: None,
        coordinator_heaviest_fork: None,
        conflict_message: Map::empty(),
    }
}

impl Default for WenRestartProgress {
    fn default() -> (progress: Self)
        ensures
            progress@ == fresh_progress(),
    {
        WenRestartProgress {
            state: RestartState::Init,
            my_last_voted_fork_slots: None,
            last_voted_fork_slots_aggregate: None,
            my_heaviest_fork: None,
            heaviest_fork_aggregate: None,
            my_snapshot: None,
            coordinator_heaviest_fork: None,
            conflict_message: StringMap::new(),
        }
    }
}

impl WenRestartProgress {
    /// The phase that the record has reached.
    pub fn state(&self) -> (state: RestartState)
        ensures
            state == self.state,
    {
        self.state
    }

    /// Moves the record to `state` and leaves the rest as it is.
    pub fn set_state(&mut self, state: RestartState)
        ensures
            final(self)@ == (WenRestartProgressView { state, ..old(self)@ }),
    {
        self.state = state;
    }
}

} // verus!
