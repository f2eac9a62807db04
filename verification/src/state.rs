//! The phases of a restart as the running validator holds them, how a
//! validator finds its phase again from the record on disk, and how it moves
//! from one phase to the next.

use crate::error::{WenRestartError, WenRestartErrorView};
use crate::hash::hash_from_base58;
use crate::last_voted_fork_slots_aggregate::{
    LastVotedForkSlotsFinalResult, LastVotedForkSlotsFinalResultView,
};
use crate::progress::{
    fresh_progress, GenerateSnapshotRecord, GenerateSnapshotRecordView, HeaviestForkRecord,
    HeaviestForkRecordView, LastVotedForkSlotsAggregateRecordView, RestartState,
    WenRestartProgress, WenRestartProgressView,
};
use solana_clock::Slot;
use vstd::prelude::*;

verus! {

/// The most slots that a validator publishes of the fork it last voted on.
pub const MAX_SLOTS: usize = 65535;

/// The phase of a restart, with what the phase works on.
#[allow(inconsistent_fields)]
#[derive(Debug, PartialEq)]
pub enum WenRestartProgressInternalState {
    Init { last_voted_fork_slots: Vec<Slot>, last_vote_bankhash: crate::hash::Hash },
    LastVotedForkSlots {
        last_voted_fork_slots: Vec<Slot>,
        aggregate_final_result: Option<LastVotedForkSlotsFinalResult>,
    },
    FindHeaviestFork {
        aggregate_final_result: LastVotedForkSlotsFinalResult,
        my_heaviest_fork: Option<HeaviestForkRecord>,
    },
    HeaviestFork { my_heaviest_fork_slot: Slot, my_heaviest_fork_hash: crate::hash::Hash },
    GenerateSnapshot { my_heaviest_fork_slot: Slot, my_snapshot: Option<GenerateSnapshotRecord> },
    Done { slot: Slot, hash: crate::hash::Hash, shred_version: u16 },
}

/// What a `WenRestartProgressInternalState` holds, as mathematical values: contracts speak of it.
#[allow(inconsistent_fields)]
pub enum WenRestartProgressInternalStateView {
    Init { last_voted_fork_slots: Seq<Slot>, last_vote_bankhash: crate::hash::Hash },
    LastVotedForkSlots {
        last_voted_fork_slots: Seq<Slot>,
        aggregate_final_result: Option<LastVotedForkSlotsFinalResultView>,
    },
    FindHeaviestFork {
        aggregate_final_result: LastVotedForkSlotsFinalResultView,
        my_heaviest_fork: Option<HeaviestForkRecordView>,
    },
    HeaviestFork { my_heaviest_fork_slot: Slot, my_heaviest_fork_hash: crate::hash::Hash },
    GenerateSnapshot {
        my_heaviest_fork_slot: Slot,
        my_snapshot: Option<GenerateSnapshotRecordView>,
    },
    Done { slot: Slot, hash: crate::hash::Hash, shred_version: u16 },
}

impl View for WenRestartProgressInternalState {
    type V = WenRestartProgressInternalStateView;

    open spec fn view(&self) -> Self::V {
        match *self {
            WenRestartProgressInternalState::Init { last_voted_fork_slots, last_vote_bankhash } => {
                WenRestartProgressInternalStateView::Init {
                    last_voted_fork_slots: last_voted_fork_slots@,
                    last_vote_bankhash,
                }
            },
            WenRestartProgressInternalState::LastVotedForkSlots {
                last_voted_fork_slots,
                aggregate_final_result,
            } => WenRestartProgressInternalStateView::LastVotedForkSlots {
                last_voted_fork_slots: last_voted_fork_slots@,
                aggregate_final_result: match aggregate_final_result {
                    Some(result) => Some(result@),
                    None => None,
                },
            },
            WenRestartProgressInternalState::FindHeaviestFork {
                aggregate_final_result,
                my_heaviest_fork,
            } => WenRestartProgressInternalStateView::FindHeaviestFork {
                aggregate_final_result: aggregate_final_result@,
                my_heaviest_fork: match my_heaviest_fork {
                    Some(record) => Some(record@),
                    None => None,
                },
            },
            WenRestartProgressInternalState::HeaviestFork {
                my_heaviest_fork_slot,
                my_heaviest_fork_hash,
            } => WenRestartProgressInternalStateView::HeaviestFork {
                my_heaviest_fork_slot,
                my_heaviest_fork_hash,
            },
            WenRestartProgressInternalState::GenerateSnapshot {
                my_heaviest_fork_slot,
                my_snapshot,
            } => WenRestartProgressInternalStateView::GenerateSnapshot {
                my_heaviest_fork_slot,
                my_snapshot: match my_snapshot {
                    Some(record) => Some(record@),
                    None => None,
                },
            },
            WenRestartProgressInternalState::Done { slot, hash, shred_version } => {
                WenRestartProgressInternalStateView::Done { slot, hash, shred_version }
            },
        }
    }
}

impl WenRestartProgressInternalStateView {
    /// The place of the phase in the order in which a restart goes through them.
    pub open spec fn rank(self) -> nat {
        match self {
            WenRestartProgressInternalStateView::Init { .. } => 0,
            WenRestartProgressInternalStateView::LastVotedForkSlots { .. } => 1,
            WenRestartProgressInternalStateView::FindHeaviestFork { .. } => 2,
            WenRestartProgressInternalStateView::HeaviestFork { .. } => 3,
            WenRestartProgressInternalStateView::GenerateSnapshot { .. } => 4,
            WenRestartProgressInternalStateView::Done { .. } => 5,
        }
    }
}

/// The hash that a bank hash text stands for. It means something only
/// where the text is the base58 form of a hash.
pub open spec fn bankhash_of(text: Seq<char>) -> crate::hash::Hash {
    hash_from_base58(text).unwrap()
}

/// Whether a text is the base58 form of a hash.
pub open spec fn is_bankhash(text: Seq<char>) -> bool {
    hash_from_base58(text) is Ok
}

/// The final result of the first phase, if the record holds one.
pub open spec fn recorded_final_result(
    aggregate: Option<LastVotedForkSlotsAggregateRecordView>,
) -> Option<LastVotedForkSlotsFinalResultView> {
    match aggregate {
        Some(record) => match record.final_result {
            Some(result) => Some(LastVotedForkSlotsFinalResultView::of_record(result)),
            None => None,
        },
        None => None,
    }
}

/// The first slots of a fork, up to the most that a validator publishes.
pub open spec fn published_slots(fork: Seq<Slot>) -> Seq<Slot> {
    if fork.len() <= MAX_SLOTS {
        fork
    } else {
        fork.take(MAX_SLOTS as int)
    }
}

/// The slot that the record says the cluster restarts from: the slot that
/// the coordinator has published, where the record holds what it has
/// published, and otherwise the slot of the heaviest fork that this validator
/// has found, which is the agreed slot for the coordinator itself.
pub open spec fn agreed_slot(progress: WenRestartProgressView) -> Option<Slot> {
    match progress.coordinator_heaviest_fork {
        Some(fork) => Some(fork.slot),
        None => match progress.my_heaviest_fork {
            Some(fork) => Some(fork.slot),
            None => None,
        },
    }
}

/// The phase that a validator resumes in, given the record on disk and the
/// fork it last voted on (the last voted slot first, then its ancestors; empty
/// where the validator has no last vote), or the reason why it cannot resume.
pub open spec fn initial_state(
    progress: WenRestartProgressView,
    last_voted_fork: Seq<Slot>,
    last_vote_bankhash: crate::hash::Hash,
) -> Result<WenRestartProgressInternalStateView, WenRestartErrorView> {
    match progress.state {
        RestartState::Done => match progress.my_snapshot {
            Some(snapshot) => Ok(
                WenRestartProgressInternalStateView::Done {
                    slot: snapshot.slot,
                    hash: bankhash_of(snapshot.bankhash),
                    shred_version: snapshot.shred_version as u16,
                },
            ),
            None => Err(WenRestartErrorView::MissingSnapshotInProtobuf),
        },
        RestartState::Init => match progress.my_last_voted_fork_slots {
            Some(record) => Ok(
                WenRestartProgressInternalStateView::Init {
                    last_voted_fork_slots: record.last_voted_fork_slots,
                    last_vote_bankhash: bankhash_of(record.last_vote_bankhash),
                },
            ),
            None => if last_voted_fork.len() == 0 {
                Err(WenRestartErrorView::MissingLastVotedForkSlots)
            } else {
                Ok(
                    WenRestartProgressInternalStateView::Init {
                        last_voted_fork_slots: published_slots(last_voted_fork),
                        last_vote_bankhash,
                    },
                )
            },
        },
        RestartState::LastVotedForkSlots => match progress.my_last_voted_fork_slots {
            Some(record) => Ok(
                WenRestartProgressInternalStateView::LastVotedForkSlots {
                    last_voted_fork_slots: record.last_voted_fork_slots,
                    aggregate_final_result: recorded_final_result(
                        progress.last_voted_fork_slots_aggregate,
                    ),
                },
            ),
            None => Err(WenRestartErrorView::MalformedLastVotedForkSlotsProtobuf(None)),
        },
        RestartState::HeaviestFork => match recorded_final_result(
            progress.last_voted_fork_slots_aggregate,
        ) {
            Some(result) => Ok(
                WenRestartProgressInternalStateView::FindHeaviestFork {
                    aggregate_final_result: result,
                    my_heaviest_fork: progress.my_heaviest_fork,
                },
            ),
            None => Err(
                WenRestartErrorView::MalformedProgress(
                    RestartState::HeaviestFork,
                    "final_result in last_voted_fork_slots_aggregate"@,
                ),
            ),
        },
        RestartState::GenerateSnapshot => match progress.my_heaviest_fork {
            Some(_) => Ok(
                WenRestartProgressInternalStateView::GenerateSnapshot {
                    my_heaviest_fork_slot: agreed_slot(progress).unwrap(),
                    my_snapshot: progress.my_snapshot,
                },
            ),
            None => Err(
                WenRestartErrorView::MalformedProgress(
                    RestartState::GenerateSnapshot,
                    "my_heaviest_fork"@,
                ),
            ),
        },
    }
}

/// Whether every bank hash that resuming from a record reads is the base58
/// form of a hash.
pub open spec fn initialize_reads_hashes(progress: WenRestartProgressView) -> bool {
    match progress.state {
        RestartState::Done => match progress.my_snapshot {
            Some(snapshot) => is_bankhash(snapshot.bankhash),
            None => true,
        },
        RestartState::Init => match progress.my_last_voted_fork_slots {
            Some(record) => is_bankhash(record.last_vote_bankhash),
            None => true,
        },
        _ => true,
    }
}

/// The record that a validator resumes from: the one on disk, or a fresh one
/// where the disk holds none.
pub open spec fn stored_or_fresh(records: Option<WenRestartProgress>) -> WenRestartProgressView {
    match records {
        Some(progress) => progress@,
        None => fresh_progress(),
    }
}

/// Whether `r` is the outcome `expected` together with the record `progress`.
pub open spec fn resumes_as(
    r: Result<(WenRestartProgressInternalState, WenRestartProgress), WenRestartError>,
    expected: Result<WenRestartProgressInternalStateView, WenRestartErrorView>,
    progress: WenRestartProgressView,
) -> bool {
    match r {
        Ok((state, record)) => expected == Ok::<
            WenRestartProgressInternalStateView,
            WenRestartErrorView,
        >(state@) && record@ == progress,
        Err(e) => expected == Err::<WenRestartProgressInternalStateView, WenRestartErrorView>(e@),
    }
}

/// The first slots of `fork`, up to the most that a validator publishes.
pub fn first_published_slots(fork: &Vec<Slot>) -> (slots: Vec<Slot>)
    ensures
        slots@ == published_slots(fork@),
{
    let mut slots: Vec<Slot> = Vec::new();
    let mut i: usize = 0;
    while i < fork.len() && i < MAX_SLOTS
        invariant
            i <= fork@.len(),
            i <= MAX_SLOTS,
            slots@ == fork@.take(i as int),
        decreases fork@.len() - i,
    {
        slots.push(fork[i]);
        i += 1;
    }
    slots
}

/// The final result of the first phase, if the record holds one.
fn read_final_result(progress: &WenRestartProgress) -> (result: Option<
    LastVotedForkSlotsFinalResult,
>)
    ensures
        match result {
            Some(r) => recorded_final_result(progress@.last_voted_fork_slots_aggregate) == Some(r@),
            None => recorded_final_result(progress@.last_voted_fork_slots_aggregate) is None,
        },
{
    match &progress.last_voted_fork_slots_aggregate {
        Some(record) => match &record.final_result {
            Some(result) => Some(LastVotedForkSlotsFinalResult::of_record(result)),
            None => None,
        },
        None => None,
    }
}

/// Narrows a shred version to the 16 bits that a shred carries.
pub fn narrow_shred_version(shred_version: u32) -> (narrow: u16)
    ensures
        narrow == shred_version as u16,
{
    #[verifier::truncate]
    (shred_version as u16)
}

/// Finds the phase to resume in from the record on disk (`None` where the
/// disk holds no record: the restart then begins, with a fresh record) and
/// from the fork that this validator last voted on. A validator that has
/// left the exchange with the coordinator resumes at the slot that was agreed
/// on, not at the slot of its own heaviest fork where the two differ.
///
/// The caller writes the fresh record to disk where it handed in `None`.
pub fn initialize(
    records: Option<WenRestartProgress>,
    last_voted_fork: &Vec<Slot>,
    last_vote_bankhash: crate::hash::Hash,
) -> (r: Result<(WenRestartProgressInternalState, WenRestartProgress), WenRestartError>)
    requires
        initialize_reads_hashes(stored_or_fresh(records)),
    ensures
        resumes_as(
            r,
            initial_state(stored_or_fresh(records), last_voted_fork@, last_vote_bankhash),
            stored_or_fresh(records),
        ),
{
    let progress = match records {
        Some(progress) => progress,
        None => WenRestartProgress::default(),
    };
    match progress.state() {
        RestartState::Done => {
            let done = match &progress.my_snapshot {
                Some(my_snapshot) => Some(
                    WenRestartProgressInternalState::Done {
                        slot: my_snapshot.slot,
                        hash: crate::hash::Hash::from_str(my_snapshot.bankhash.as_str()).unwrap(),
                        shred_version: narrow_shred_version(my_snapshot.shred_version),
                    },
                ),
                None => None,
            };
            match done {
                Some(state) => Ok((state, progress)),
                None => Err(WenRestartError::MissingSnapshotInProtobuf),
            }
        },
        RestartState::Init => {
            let init = match &progress.my_last_voted_fork_slots {
                Some(record) => Some(
                    WenRestartProgressInternalState::Init {
                        last_voted_fork_slots: record.last_voted_fork_slots.clone(),
                        last_vote_bankhash: crate::hash::Hash::from_str(
                            record.last_vote_bankhash.as_str(),
                        ).unwrap(),
                    },
                ),
                None => {
                    // Without a last vote this validator has nothing to offer the
                    // others, and cannot take part.
                    if last_voted_fork.len() == 0 {
                        None
                    } else {
                        Some(
                            WenRestartProgressInternalState::Init {
                                last_voted_fork_slots: first_published_slots(last_voted_fork),
                                last_vote_bankhash,
                            },
                        )
                    }
                },
            };
            match init {
                Some(state) => Ok((state, progress)),
                None => Err(WenRestartError::MissingLastVotedForkSlots),
            }
        },
        RestartState::LastVotedForkSlots => {
            let resumed = match &progress.my_last_voted_fork_slots {
                Some(record) => Some(
                    WenRestartProgressInternalState::LastVotedForkSlots {
                        last_voted_fork_slots: record.last_voted_fork_slots.clone(),
                        aggregate_final_result: read_final_result(&progress),
                    },
                ),
                None => None,
            };
            match resumed {
                Some(state) => Ok((state, progress)),
                None => Err(WenRestartError::MalformedLastVotedForkSlotsProtobuf(None)),
            }
        },
        RestartState::HeaviestFork => {
            match read_final_result(&progress) {
                Some(aggregate_final_result) => {
                    let my_heaviest_fork = match &progress.my_heaviest_fork {
                        Some(record) => Some(record.clone()),
                        None => None,
                    };
                    Ok(
                        (
                            WenRestartProgressInternalState::FindHeaviestFork {
                                aggregate_final_result,
                                my_heaviest_fork,
                            },
                            progress,
                        ),
                    )
                },
                None => Err(
                    WenRestartError::MalformedProgress(
                        RestartState::HeaviestFork,
                        String::from_str("final_result in last_voted_fork_slots_aggregate"),
                    ),
                ),
            }
        },
        RestartState::GenerateSnapshot => {
            let resumed = match &progress.my_heaviest_fork {
                Some(fork) => Some(
                    WenRestartProgressInternalState::GenerateSnapshot {
                        // The snapshot is taken at the slot that was agreed
                        // on, which for a follower is that of the coordinator.
                        my_heaviest_fork_slot: match &progress.coordinator_heaviest_fork {
                            Some(agreed) => agreed.slot,
                            None => fork.slot,
                        },
                        my_snapshot: match &progress.my_snapshot {
                            Some(record) => Some(record.clone()),
                            None => None,
                        },
                    },
                ),
                None => None,
            };
            match resumed {
                Some(state) => Ok((state, progress)),
                None => Err(
                    WenRestartError::MalformedProgress(
                        RestartState::GenerateSnapshot,
                        String::from_str("my_heaviest_fork"),
                    ),
                ),
            }
        },
    }
}

/// Whether every bank hash that resuming from `progress` reads is the base58
/// form of a hash.
pub fn can_initialize(progress: &WenRestartProgress) -> (ok: bool)
    ensures
        ok == initialize_reads_hashes(progress@),
{
    match progress.state() {
        RestartState::Done => match &progress.my_snapshot {
            Some(snapshot) => crate::hash::Hash::from_str(snapshot.bankhash.as_str()).is_ok(),
            None => true,
        },
        RestartState::Init => match &progress.my_last_voted_fork_slots {
            Some(record) => crate::hash::Hash::from_str(record.last_vote_bankhash.as_str()).is_ok(),
            None => true,
        },
        _ => true,
    }
}

/// As `initialize`, for any record: `None` where a bank hash that resuming
/// reads is not the base58 form of a hash.
pub fn try_initialize(
    records: Option<WenRestartProgress>,
    last_voted_fork: &Vec<Slot>,
    last_vote_bankhash: crate::hash::Hash,
) -> (r: Option<Result<(WenRestartProgressInternalState, WenRestartProgress), WenRestartError>>)
    ensures
        r is Some <==> initialize_reads_hashes(stored_or_fresh(records)),
        r matches Some(outcome) ==> resumes_as(
            outcome,
            initial_state(stored_or_fresh(records), last_voted_fork@, last_vote_bankhash),
            stored_or_fresh(records),
        ),
{
    let readable = match &records {
        Some(progress) => can_initialize(progress),
        None => true,
    };
    if readable {
        Some(initialize(records, last_voted_fork, last_vote_bankhash))
    } else {
        None
    }
}

/// The phase that follows a finished phase, with the record as it then
/// stands, or the reason why the phase is not finished.
pub open spec fn next_state(
    current: WenRestartProgressInternalStateView,
    progress: WenRestartProgressView,
) -> Result<(WenRestartProgressInternalStateView, WenRestartProgressView), WenRestartErrorView> {
    match current {
        WenRestartProgressInternalStateView::Init { last_voted_fork_slots, .. } => Ok(
            (
                WenRestartProgressInternalStateView::LastVotedForkSlots {
                    last_voted_fork_slots,
                    aggregate_final_result: None,
                },
                WenRestartProgressView { state: RestartState::LastVotedForkSlots, ..progress },
            ),
        ),
        WenRestartProgressInternalStateView::LastVotedForkSlots {
            aggregate_final_result,
            ..
        } => match aggregate_final_result {
            Some(result) => Ok(
                (
                    WenRestartProgressInternalStateView::FindHeaviestFork {
                        aggregate_final_result: result,
                        my_heaviest_fork: None,
                    },
                    WenRestartProgressView {
                        state: RestartState::HeaviestFork,
                        last_voted_fork_slots_aggregate: match progress.last_voted_fork_slots_aggregate {
                            Some(record) => Some(
                                LastVotedForkSlotsAggregateRecordView {
                                    final_result: Some(result.to_record()),
                                    ..record
                                },
                            ),
                            None => None,
                        },
                        ..progress
                    },
                ),
            ),
            None => Err(WenRestartErrorView::UnexpectedState(RestartState::LastVotedForkSlots)),
        },
        WenRestartProgressInternalStateView::FindHeaviestFork { my_heaviest_fork, .. } => match my_heaviest_fork {
            Some(fork) => Ok(
                (
                    WenRestartProgressInternalStateView::HeaviestFork {
                        my_heaviest_fork_slot: fork.slot,
                        my_heaviest_fork_hash: bankhash_of(fork.bankhash),
                    },
                    WenRestartProgressView { my_heaviest_fork: Some(fork), ..progress },
                ),
            ),
            None => Err(WenRestartErrorView::UnexpectedState(RestartState::HeaviestFork)),
        },
        WenRestartProgressInternalStateView::HeaviestFork { my_heaviest_fork_slot, .. } => Ok(
            (
                WenRestartProgressInternalStateView::GenerateSnapshot {
                    my_heaviest_fork_slot,
                    my_snapshot: None,
                },
                WenRestartProgressView { state: RestartState::GenerateSnapshot, ..progress },
            ),
        ),
        WenRestartProgressInternalStateView::GenerateSnapshot { my_snapshot, .. } => match my_snapshot {
            Some(snapshot) => Ok(
                (
                    WenRestartProgressInternalStateView::Done {
                        slot: snapshot.slot,
                        hash: bankhash_of(snapshot.bankhash),
                        shred_version: snapshot.shred_version as u16,
                    },
                    WenRestartProgressView {
                        state: RestartState::Done,
                        my_snapshot: Some(snapshot),
                        ..progress
                    },
                ),
            ),
            None => Err(WenRestartErrorView::MissingSnapshotInProtobuf),
        },
        WenRestartProgressInternalStateView::Done { .. } => Err(
            WenRestartErrorView::UnexpectedState(RestartState::Done),
        ),
    }
}

/// Whether every bank hash that leaving a phase reads is the base58 form of
/// a hash.
pub open spec fn increment_reads_hashes(current: WenRestartProgressInternalStateView) -> bool {
    match current {
        WenRestartProgressInternalStateView::FindHeaviestFork { my_heaviest_fork, .. } => match my_heaviest_fork {
            Some(fork) => is_bankhash(fork.bankhash),
            None => true,
        },
        WenRestartProgressInternalStateView::GenerateSnapshot { my_snapshot, .. } => match my_snapshot {
            Some(snapshot) => is_bankhash(snapshot.bankhash),
            None => true,
        },
        _ => true,
    }
}

/// Whether `r` and `after` are the outcome `expected` of leaving a phase with
/// the record `before`: on an error the record is as it was.
pub open spec fn advances_as(
    r: Result<WenRestartProgressInternalState, WenRestartError>,
    after: WenRestartProgressView,
    expected: Result<
        (WenRestartProgressInternalStateView, WenRestartProgressView),
        WenRestartErrorView,
    >,
    before: WenRestartProgressView,
) -> bool {
    match r {
        Ok(state) => expected == Ok::<
            (WenRestartProgressInternalStateView, WenRestartProgressView),
            WenRestartErrorView,
        >((state@, after)),
        Err(e) => expected == Err::<
            (WenRestartProgressInternalStateView, WenRestartProgressView),
            WenRestartErrorView,
        >(e@) && after == before,
    }
}

/// Leaves the finished phase `current_state`: enters in the record what the
/// phase has produced and returns the phase that follows. A phase that has
/// not produced its result is refused, and the record stays as it was.
///
/// The caller writes the record to disk after every success.
pub fn increment_and_write_wen_restart_records(
    current_state: WenRestartProgressInternalState,
    progress: &mut WenRestartProgress,
) -> (r: Result<WenRestartProgressInternalState, WenRestartError>)
    requires
        increment_reads_hashes(current_state@),
    ensures
        advances_as(
            r,
            final(progress)@,
            next_state(current_state@, old(progress)@),
            old(progress)@,
        ),
{
    match current_state {
        WenRestartProgressInternalState::Init { last_voted_fork_slots, last_vote_bankhash: _ } => {
            progress.set_state(RestartState::LastVotedForkSlots);
            Ok(
                WenRestartProgressInternalState::LastVotedForkSlots {
                    last_voted_fork_slots,
                    aggregate_final_result: None,
                },
            )
        },
        WenRestartProgressInternalState::LastVotedForkSlots {
            last_voted_fork_slots: _,
            aggregate_final_result,
        } => {
            match aggregate_final_result {
                Some(aggregate_final_result) => {
                    progress.set_state(RestartState::HeaviestFork);
                    let record = aggregate_final_result.to_record();
                    match &mut progress.last_voted_fork_slots_aggregate {
                        Some(aggregate_record) => {
                            aggregate_record.final_result = Some(record);
                        },
                        None => {},
                    }
                    Ok(
                        WenRestartProgressInternalState::FindHeaviestFork {
                            aggregate_final_result,
                            my_heaviest_fork: None,
                        },
                    )
                },
                None => Err(WenRestartError::UnexpectedState(RestartState::LastVotedForkSlots)),
            }
        },
        WenRestartProgressInternalState::FindHeaviestFork {
            aggregate_final_result: _,
            my_heaviest_fork,
        } => {
            match my_heaviest_fork {
                Some(my_heaviest_fork) => {
                    let my_heaviest_fork_slot = my_heaviest_fork.slot;
                    let my_heaviest_fork_hash = crate::hash::Hash::from_str(
                        my_heaviest_fork.bankhash.as_str(),
                    ).unwrap();
                    progress.my_heaviest_fork = Some(my_heaviest_fork);
                    Ok(
                        WenRestartProgressInternalState::HeaviestFork {
                            my_heaviest_fork_slot,
                            my_heaviest_fork_hash,
                        },
                    )
                },
                None => Err(WenRestartError::UnexpectedState(RestartState::HeaviestFork)),
            }
        },
        WenRestartProgressInternalState::HeaviestFork { my_heaviest_fork_slot, .. } => {
            progress.set_state(RestartState::GenerateSnapshot);
            Ok(
                WenRestartProgressInternalState::GenerateSnapshot {
                    my_heaviest_fork_slot,
                    my_snapshot: None,
                },
            )
        },
        WenRestartProgressInternalState::GenerateSnapshot {
            my_heaviest_fork_slot: _,
            my_snapshot,
        } => {
            match my_snapshot {
                Some(my_snapshot) => {
                    progress.set_state(RestartState::Done);
                    let done = WenRestartProgressInternalState::Done {
                        slot: my_snapshot.slot,
                        hash: crate::hash::Hash::from_str(my_snapshot.bankhash.as_str()).unwrap(),
                        shred_version: narrow_shred_version(my_snapshot.shred_version),
                    };
                    progress.my_snapshot = Some(my_snapshot);
                    Ok(done)
                },
                None => Err(WenRestartError::MissingSnapshotInProtobuf),
            }
        },
        WenRestartProgressInternalState::Done { .. } => Err(
            WenRestartError::UnexpectedState(RestartState::Done),
        ),
    }
}

/// Whether every bank hash that leaving the phase `current_state` reads is
/// the base58 form of a hash.
pub fn can_increment(current_state: &WenRestartProgressInternalState) -> (ok: bool)
    ensures
        ok == increment_reads_hashes(current_state@),
{
    match current_state {
        WenRestartProgressInternalState::FindHeaviestFork { my_heaviest_fork, .. } => match my_heaviest_fork {
            Some(fork) => crate::hash::Hash::from_str(fork.bankhash.as_str()).is_ok(),
            None => true,
        },
        WenRestartProgressInternalState::GenerateSnapshot { my_snapshot, .. } => match my_snapshot {
            Some(snapshot) => crate::hash::Hash::from_str(snapshot.bankhash.as_str()).is_ok(),
            None => true,
        },
        _ => true,
    }
}

/// As `increment_and_write_wen_restart_records`, for any phase: where a bank
/// hash that leaving the phase reads is not the base58 form of a hash, the
/// phase is handed back and the record stays as it was.
pub fn try_increment_and_write_wen_restart_records(
    current_state: WenRestartProgressInternalState,
    progress: &mut WenRestartProgress,
) -> (r: Result<
    Result<WenRestartProgressInternalState, WenRestartError>,
    WenRestartProgressInternalState,
>)
    ensures
        r is Ok <==> increment_reads_hashes(current_state@),
        r matches Ok(outcome) ==> advances_as(
            outcome,
            final(progress)@,
            next_state(current_state@, old(progress)@),
            old(progress)@,
        ),
        r matches Err(state) ==> state == current_state && final(progress)@ == old(progress)@,
{
    if can_increment(&current_state) {
        Ok(increment_and_write_wen_restart_records(current_state, progress))
    } else {
        Err(current_state)
    }
}

impl WenRestartProgressInternalStateView {
    /// The phase that the record on disk shows while the validator is in
    /// this phase. Finding the heaviest fork and exchanging it with the
    /// coordinator are one phase on disk.
    pub open spec fn recorded_state(self) -> RestartState {
        match self {
            WenRestartProgressInternalStateView::Init { .. } => RestartState::Init,
            WenRestartProgressInternalStateView::LastVotedForkSlots { .. } => {
                RestartState::LastVotedForkSlots
            },
            WenRestartProgressInternalStateView::FindHeaviestFork { .. } => {
                RestartState::HeaviestFork
            },
            WenRestartProgressInternalStateView::HeaviestFork { .. } => RestartState::HeaviestFork,
            WenRestartProgressInternalStateView::GenerateSnapshot { .. } => {
                RestartState::GenerateSnapshot
            },
            WenRestartProgressInternalStateView::Done { .. } => RestartState::Done,
        }
    }
}

/// Whether the record holds what the phase `current` works on, so that a
/// validator that stops right after leaving the phase finds its way back.
pub open spec fn recorded_in(
    current: WenRestartProgressInternalStateView,
    progress: WenRestartProgressView,
) -> bool {
    match current {
        WenRestartProgressInternalStateView::Init { last_voted_fork_slots, .. } => {
            &&& progress.my_last_voted_fork_slots matches Some(record)
            &&& record.last_voted_fork_slots == last_voted_fork_slots
            &&& recorded_final_result(progress.last_voted_fork_slots_aggregate) is None
        },
        WenRestartProgressInternalStateView::LastVotedForkSlots { .. } => {
            &&& progress.last_voted_fork_slots_aggregate is Some
            &&& progress.my_heaviest_fork is None
        },
        WenRestartProgressInternalStateView::FindHeaviestFork { .. } => false,
        WenRestartProgressInternalStateView::HeaviestFork { my_heaviest_fork_slot, .. } => {
            &&& progress.my_heaviest_fork is Some
            &&& agreed_slot(progress) == Some(my_heaviest_fork_slot)
            &&& progress.my_snapshot is None
        },
        WenRestartProgressInternalStateView::GenerateSnapshot { .. } => true,
        WenRestartProgressInternalStateView::Done { .. } => true,
    }
}

/// A validator that resumes is in the phase that the record shows.
pub proof fn lemma_resumes_in_recorded_phase(
    progress: WenRestartProgressView,
    last_voted_fork: Seq<Slot>,
    last_vote_bankhash: crate::hash::Hash,
)
    ensures
        initial_state(progress, last_voted_fork, last_vote_bankhash) matches Ok(state)
            ==> state.recorded_state() == progress.state,
{
}

/// The phase on disk only advances: leaving a phase moves the validator one
/// phase on, and never moves the record to an earlier phase.
pub proof fn lemma_phase_only_advances(
    current: WenRestartProgressInternalStateView,
    progress: WenRestartProgressView,
)
    requires
        progress.state == current.recorded_state(),
    ensures
        next_state(current, progress) matches Ok((state, record)) ==> {
            &&& state.rank() == current.rank() + 1
            &&& record.state == state.recorded_state()
            &&& record.state.rank() >= progress.state.rank()
        },
{
}

/// Resuming from the record that leaving a phase has written gives the phase
/// that the validator had moved to, whatever its last vote is by then.
///
/// This is stated of the records that hold what the phase worked on; for
/// the exchange with the coordinator that is the agreed slot, which the
/// record of a follower holds as the slot that the coordinator has published.
/// It does not hold of the step from finding the heaviest fork to exchanging
/// it: there the record stays in the same phase, and
/// `lemma_resume_skips_finder` says what holds instead.
pub proof fn lemma_resume_is_idempotent(
    current: WenRestartProgressInternalStateView,
    progress: WenRestartProgressView,
    last_voted_fork: Seq<Slot>,
    last_vote_bankhash: crate::hash::Hash,
)
    requires
        recorded_in(current, progress),
    ensures
        next_state(current, progress) matches Ok((state, record)) ==> initial_state(
            record,
            last_voted_fork,
            last_vote_bankhash,
        ) == Ok::<WenRestartProgressInternalStateView, WenRestartErrorView>(state),
{
    match current {
        WenRestartProgressInternalStateView::LastVotedForkSlots {
            aggregate_final_result,
            ..
        } => {
            if let Some(result) = aggregate_final_result {
                crate::last_voted_fork_slots_aggregate::lemma_final_result_reads_back(result);
            }
        },
        _ => {},
    }
}

/// A validator that stops after it has found its heaviest fork resumes with
/// the fork in hand, and leaves the phase without finding it again: it
/// reaches the phase that it had moved to, and the record is as it was.
pub proof fn lemma_resume_skips_finder(
    current: WenRestartProgressInternalStateView,
    progress: WenRestartProgressView,
    last_voted_fork: Seq<Slot>,
    last_vote_bankhash: crate::hash::Hash,
)
    requires
        current is FindHeaviestFork,
        progress.state == RestartState::HeaviestFork,
        recorded_final_result(progress.last_voted_fork_slots_aggregate) is Some,
    ensures
        next_state(current, progress) matches Ok((state, record)) ==> {
            &&& initial_state(record, last_voted_fork, last_vote_bankhash) matches Ok(resumed)
            &&& resumed matches WenRestartProgressInternalStateView::FindHeaviestFork {
                my_heaviest_fork: Some(_),
                ..
            }
            &&& next_state(resumed, record) == Ok::<
                (WenRestartProgressInternalStateView, WenRestartProgressView),
                WenRestartErrorView,
            >((state, record))
        },
{
}

/// A validator without a last vote cannot begin a restart.
pub proof fn lemma_missing_last_vote(
    progress: WenRestartProgressView,
    last_vote_bankhash: crate::hash::Hash,
)
    requires
        progress.state == RestartState::Init,
        progress.my_last_voted_fork_slots is None,
    ensures
        initial_state(progress, Seq::<Slot>::empty(), last_vote_bankhash) == Err::<
            WenRestartProgressInternalStateView,
            WenRestartErrorView,
        >(WenRestartErrorView::MissingLastVotedForkSlots),
{
}

/// A record in the heaviest-fork phase without the final result of the first
/// phase is malformed.
pub proof fn lemma_missing_final_result(
    progress: WenRestartProgressView,
    last_voted_fork: Seq<Slot>,
    last_vote_bankhash: crate::hash::Hash,
)
    requires
        progress.state == RestartState::HeaviestFork,
        recorded_final_result(progress.last_voted_fork_slots_aggregate) is None,
    ensures
        initial_state(progress, last_voted_fork, last_vote_bankhash) == Err::<
            WenRestartProgressInternalStateView,
            WenRestartErrorView,
        >(
            WenRestartErrorView::MalformedProgress(
                RestartState::HeaviestFork,
                "final_result in last_voted_fork_slots_aggregate"@,
            ),
        ),
{
}

} // verus!
