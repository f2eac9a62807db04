//! The order of the phases: what each phase needs from the outside, and how
//! what comes back moves the validator on.
//!
//! The caller owns the loop. It asks `phase_work` what the phase needs, does
//! it (gossip, ledger and snapshots are the caller's), hands the outcome to
//! `advance`, and writes the record to disk whenever `advance` has moved on.

use crate::error::{WenRestartError, WenRestartErrorView};
use crate::last_voted_fork_slots_aggregate::LastVotedForkSlotsFinalResult;
use crate::progress::{
    GenerateSnapshotRecord, GenerateSnapshotRecordView, HeaviestForkRecord,
    HeaviestForkRecordView, LastVotedForkSlotsRecord, LastVotedForkSlotsRecordView,
    WenRestartProgress, WenRestartProgressView,
};
use crate::pubkey::Pubkey;
use crate::state::{
    advances_as, increment_reads_hashes, next_state, try_increment_and_write_wen_restart_records,
    WenRestartProgressInternalState, WenRestartProgressInternalStateView,
};
use solana_clock::Slot;
use vstd::prelude::*;

verus! {

/// What a validator is configured with for a restart, as far as the
/// decisions of the protocol read it.
#[derive(Clone, Copy, Debug)]
pub struct WenRestartConfig {
    /// The validator whose heaviest fork the others follow.
    pub wen_restart_coordinator: Pubkey,
    /// The identity of this validator.
    pub my_pubkey: Pubkey,
    /// The shred version that this validator runs with.
    pub my_shred_version: u16,
    /// The share of the stake, in percent, that has to be heard from before
    /// the first phase ends.
    pub wait_for_supermajority_threshold_percent: u64,
    /// Whether this validator has the means to produce snapshots.
    pub snapshots_enabled: bool,
    /// The hash of the genesis configuration of the cluster.
    pub genesis_config_hash: crate::hash::Hash,
}

impl WenRestartConfig {
    /// Whether this validator is the coordinator.
    pub open spec fn coordinates(self) -> bool {
        self.my_pubkey == self.wen_restart_coordinator
    }

    /// Whether this validator is the coordinator.
    pub fn is_coordinator(&self) -> (yes: bool)
        ensures
            yes == self.coordinates(),
    {
        self.my_pubkey == self.wen_restart_coordinator
    }
}

/// Calls `timestamp` of `solana_time_utils`: the milliseconds since the Unix
/// epoch by the clock of the machine. Nothing is promised of the value. (The
/// call ends the process where the clock stands before 1970.)
#[verifier::external_body]
fn timestamp() -> (now: u64) {
    solana_time_utils::timestamp()
}

/// What a phase needs from the outside before the validator can leave it.
#[derive(Debug, PartialEq)]
pub enum PhaseWork {
    /// Publish the fork that this validator last voted on.
    PublishLastVotedForkSlots {
        last_voted_fork_slots: Vec<Slot>,
        last_vote_bankhash: crate::hash::Hash,
    },
    /// Collect the last voted forks of the others until enough stake has been
    /// heard from and nothing is left to repair.
    AggregateLastVotedForkSlots { last_voted_fork_slots: Vec<Slot> },
    /// Find the heaviest fork in the final result of the first phase.
    FindHeaviestFork { aggregate_final_result: LastVotedForkSlotsFinalResult },
    /// Publish the heaviest fork as coordinator, or wait for the fork of the
    /// coordinator and check it.
    ExchangeHeaviestFork { my_heaviest_fork_slot: Slot, my_heaviest_fork_hash: crate::hash::Hash },
    /// Produce a snapshot of the bank at the slot.
    GenerateSnapshot { my_heaviest_fork_slot: Slot },
    /// The phase was finished before the validator last stopped: nothing is
    /// needed.
    Nothing,
    /// The restart is over. Tell the operator how to start the validator
    /// again; the coordinator goes on collecting what the others publish.
    Finish { slot: Slot, hash: crate::hash::Hash, shred_version: u16, keep_aggregating: bool },
}

/// What the outside work of a phase has come back with.
#[derive(Debug, PartialEq)]
pub enum PhaseOutcome {
    /// Nothing was needed.
    Nothing,
    /// The last voted fork of this validator is in gossip.
    Published,
    /// The first phase has ended with this result.
    Aggregated(LastVotedForkSlotsFinalResult),
    /// This validator holds this slot, with this bank hash, to be the
    /// heaviest fork.
    HeaviestForkFound { slot: Slot, bankhash: crate::hash::Hash },
    /// The cluster restarts from this slot, with this bank hash.
    HeaviestForkAgreed { slot: Slot, hash: crate::hash::Hash },
    /// The snapshot of the bank at `slot`, with the bank hash and the shred
    /// version after the hard fork, lies at `path`.
    SnapshotGenerated { path: String, slot: Slot, bankhash: crate::hash::Hash, shred_version: u16 },
}

/// Whether `work` is what the phase `state` needs, with `config`.
pub open spec fn is_phase_work(
    state: WenRestartProgressInternalStateView,
    config: WenRestartConfig,
    work: PhaseWork,
) -> bool {
    match state {
        WenRestartProgressInternalStateView::Init { last_voted_fork_slots, last_vote_bankhash } => {
            work matches PhaseWork::PublishLastVotedForkSlots {
                last_voted_fork_slots: slots,
                last_vote_bankhash: hash,
            } && slots@ == last_voted_fork_slots && hash == last_vote_bankhash
        },
        WenRestartProgressInternalStateView::LastVotedForkSlots {
            last_voted_fork_slots,
            aggregate_final_result,
        } => match aggregate_final_result {
            Some(_) => work is Nothing,
            None => work matches PhaseWork::AggregateLastVotedForkSlots {
                last_voted_fork_slots: slots,
            } && slots@ == last_voted_fork_slots,
        },
        WenRestartProgressInternalStateView::FindHeaviestFork {
            aggregate_final_result,
            my_heaviest_fork,
        } => match my_heaviest_fork {
            Some(_) => work is Nothing,
            None => work matches PhaseWork::FindHeaviestFork { aggregate_final_result: result }
                && result@ == aggregate_final_result,
        },
        WenRestartProgressInternalStateView::HeaviestFork {
            my_heaviest_fork_slot,
            my_heaviest_fork_hash,
        } => work == (PhaseWork::ExchangeHeaviestFork {
            my_heaviest_fork_slot,
            my_heaviest_fork_hash,
        }),
        WenRestartProgressInternalStateView::GenerateSnapshot {
            my_heaviest_fork_slot,
            my_snapshot,
        } => match my_snapshot {
            Some(_) => work is Nothing,
            None => work == (PhaseWork::GenerateSnapshot { my_heaviest_fork_slot }),
        },
        WenRestartProgressInternalStateView::Done { slot, hash, shred_version } => work == (
        PhaseWork::Finish { slot, hash, shred_version, keep_aggregating: config.coordinates() }),
    }
}

/// Whether the phase has to produce a snapshot while the validator has no
/// means to produce one.
pub open spec fn snapshot_is_disabled(
    state: WenRestartProgressInternalStateView,
    config: WenRestartConfig,
) -> bool {
    state matches WenRestartProgressInternalStateView::GenerateSnapshot { my_snapshot: None, .. }
        && !config.snapshots_enabled
}

/// Says what the phase `state` needs from the outside. A phase that has to
/// produce a snapshot is refused where the validator cannot produce any.
pub fn phase_work(state: &WenRestartProgressInternalState, config: &WenRestartConfig) -> (r: Result<
    PhaseWork,
    WenRestartError,
>)
    ensures
        match r {
            Ok(work) => !snapshot_is_disabled(state@, *config) && is_phase_work(
                state@,
                *config,
                work,
            ),
            Err(e) => snapshot_is_disabled(state@, *config)
                && e@ == WenRestartErrorView::GenerateSnapshotWhenDisabled,
        },
{
    match state {
        WenRestartProgressInternalState::Init { last_voted_fork_slots, last_vote_bankhash } => Ok(
            PhaseWork::PublishLastVotedForkSlots {
                last_voted_fork_slots: last_voted_fork_slots.clone(),
                last_vote_bankhash: *last_vote_bankhash,
            },
        ),
        WenRestartProgressInternalState::LastVotedForkSlots {
            last_voted_fork_slots,
            aggregate_final_result,
        } => match aggregate_final_result {
            Some(_) => Ok(PhaseWork::Nothing),
            None => Ok(
                PhaseWork::AggregateLastVotedForkSlots {
                    last_voted_fork_slots: last_voted_fork_slots.clone(),
                },
            ),
        },
        WenRestartProgressInternalState::FindHeaviestFork {
            aggregate_final_result,
            my_heaviest_fork,
        } => match my_heaviest_fork {
            Some(_) => Ok(PhaseWork::Nothing),
            None => Ok(
                PhaseWork::FindHeaviestFork {
                    aggregate_final_result: aggregate_final_result.clone(),
                },
            ),
        },
        WenRestartProgressInternalState::HeaviestFork {
            my_heaviest_fork_slot,
            my_heaviest_fork_hash,
        } => Ok(
            PhaseWork::ExchangeHeaviestFork {
                my_heaviest_fork_slot: *my_heaviest_fork_slot,
                my_heaviest_fork_hash: *my_heaviest_fork_hash,
            },
        ),
        WenRestartProgressInternalState::GenerateSnapshot {
            my_heaviest_fork_slot,
            my_snapshot,
        } => match my_snapshot {
            Some(_) => Ok(PhaseWork::Nothing),
            None => {
                if config.snapshots_enabled {
                    Ok(PhaseWork::GenerateSnapshot { my_heaviest_fork_slot: *my_heaviest_fork_slot })
                } else {
                    Err(WenRestartError::GenerateSnapshotWhenDisabled)
                }
            },
        },
        WenRestartProgressInternalState::Done { slot, hash, shred_version } => Ok(
            PhaseWork::Finish {
                slot: *slot,
                hash: *hash,
                shred_version: *shred_version,
                keep_aggregating: config.is_coordinator(),
            },
        ),
    }
}

/// The record of a last voted fork that was published at `wallclock`.
pub open spec fn last_voted_fork_slots_record(
    last_voted_fork_slots: Seq<Slot>,
    last_vote_bankhash: crate::hash::Hash,
    shred_version: u16,
    wallclock: u64,
) -> LastVotedForkSlotsRecordView {
    LastVotedForkSlotsRecordView {
        last_voted_fork_slots,
        last_vote_bankhash: last_vote_bankhash.text(),
        shred_version: shred_version as u32,
        wallclock,
    }
}

/// Writes down the last voted fork that this validator has published, with
/// the time at which it is written down.
pub fn send_restart_last_voted_fork_slots(
    last_voted_fork_slots: &Vec<Slot>,
    last_vote_bankhash: crate::hash::Hash,
    shred_version: u16,
) -> (record: LastVotedForkSlotsRecord)
    ensures
        record@ == last_voted_fork_slots_record(
            last_voted_fork_slots@,
            last_vote_bankhash,
            shred_version,
            record.wallclock,
        ),
{
    LastVotedForkSlotsRecord {
        last_voted_fork_slots: last_voted_fork_slots.clone(),
        last_vote_bankhash: last_vote_bankhash.to_string(),
        shred_version: shred_version as u32,
        wallclock: timestamp(),
    }
}

/// The record of the heaviest fork that this validator has found.
pub open spec fn my_heaviest_fork_record(
    slot: Slot,
    bankhash: crate::hash::Hash,
    config: WenRestartConfig,
) -> HeaviestForkRecordView {
    HeaviestForkRecordView {
        slot,
        bankhash: bankhash.text(),
        total_active_stake: 0,
        shred_version: config.my_shred_version as u32,
        wallclock: 0,
        from: config.my_pubkey.text(),
    }
}

/// The record of a snapshot.
pub open spec fn snapshot_record(
    path: Seq<char>,
    slot: Slot,
    bankhash: crate::hash::Hash,
    shred_version: u16,
) -> GenerateSnapshotRecordView {
    GenerateSnapshotRecordView {
        path,
        slot,
        bankhash: bankhash.text(),
        shred_version: shred_version as u32,
    }
}

/// Whether the outcome `outcome` belongs to the phase `state`.
pub open spec fn outcome_fits(
    state: WenRestartProgressInternalStateView,
    outcome: PhaseOutcome,
) -> bool {
    match state {
        WenRestartProgressInternalStateView::Init { .. } => outcome is Published,
        WenRestartProgressInternalStateView::LastVotedForkSlots {
            aggregate_final_result,
            ..
        } => if aggregate_final_result is Some {
            outcome is Nothing
        } else {
            outcome is Aggregated
        },
        WenRestartProgressInternalStateView::FindHeaviestFork { my_heaviest_fork, .. } => {
            if my_heaviest_fork is Some {
                outcome is Nothing
            } else {
                outcome is HeaviestForkFound
            }
        },
        WenRestartProgressInternalStateView::HeaviestFork { .. } => outcome is HeaviestForkAgreed,
        WenRestartProgressInternalStateView::GenerateSnapshot { my_snapshot, .. } => {
            if my_snapshot is Some {
                outcome is Nothing
            } else {
                outcome is SnapshotGenerated
            }
        },
        WenRestartProgressInternalStateView::Done { .. } => false,
    }
}

/// The phase `state` with the outcome of its outside work taken in, and the
/// record as it then stands. `wallclock` is the time at which a published
/// fork is written down. It means something only where the outcome fits.
pub open spec fn completed_phase(
    state: WenRestartProgressInternalStateView,
    outcome: PhaseOutcome,
    config: WenRestartConfig,
    progress: WenRestartProgressView,
    wallclock: u64,
) -> (WenRestartProgressInternalStateView, WenRestartProgressView) {
    match state {
        WenRestartProgressInternalStateView::Init { last_voted_fork_slots, last_vote_bankhash } => (
            state,
            WenRestartProgressView {
                my_last_voted_fork_slots: Some(
                    last_voted_fork_slots_record(
                        last_voted_fork_slots,
                        last_vote_bankhash,
                        config.my_shred_version,
                        wallclock,
                    ),
                ),
                ..progress
            },
        ),
        WenRestartProgressInternalStateView::LastVotedForkSlots {
            last_voted_fork_slots,
            aggregate_final_result,
        } => match outcome {
            PhaseOutcome::Aggregated(result) => (
                WenRestartProgressInternalStateView::LastVotedForkSlots {
                    last_voted_fork_slots,
                    aggregate_final_result: Some(result@),
                },
                progress,
            ),
            _ => (state, progress),
        },
        WenRestartProgressInternalStateView::FindHeaviestFork {
            aggregate_final_result,
            my_heaviest_fork,
        } => match outcome {
            PhaseOutcome::HeaviestForkFound { slot, bankhash } => (
                WenRestartProgressInternalStateView::FindHeaviestFork {
                    aggregate_final_result,
                    my_heaviest_fork: Some(my_heaviest_fork_record(slot, bankhash, config)),
                },
                progress,
            ),
            _ => (state, progress),
        },
        WenRestartProgressInternalStateView::HeaviestFork { .. } => match outcome {
            PhaseOutcome::HeaviestForkAgreed { slot, hash } => (
                WenRestartProgressInternalStateView::HeaviestFork {
                    my_heaviest_fork_slot: slot,
                    my_heaviest_fork_hash: hash,
                },
                progress,
            ),
            _ => (state, progress),
        },
        WenRestartProgressInternalStateView::GenerateSnapshot {
            my_heaviest_fork_slot,
            my_snapshot,
        } => match outcome {
            PhaseOutcome::SnapshotGenerated { path, slot, bankhash, shred_version } => (
                WenRestartProgressInternalStateView::GenerateSnapshot {
                    my_heaviest_fork_slot,
                    my_snapshot: Some(snapshot_record(path@, slot, bankhash, shred_version)),
                },
                progress,
            ),
            _ => (state, progress),
        },
        WenRestartProgressInternalStateView::Done { .. } => (state, progress),
    }
}

/// The time at which the record says that the last voted fork of this
/// validator was written down, or 0 where it holds none.
pub open spec fn published_wallclock(progress: WenRestartProgressView) -> u64 {
    match progress.my_last_voted_fork_slots {
        Some(record) => record.wallclock,
        None => 0,
    }
}

/// Whether leaving a phase that has taken this outcome in reads no bank hash
/// from the record.
pub open spec fn reads_no_hash(outcome: PhaseOutcome) -> bool {
    outcome is Published || outcome is Aggregated || outcome is HeaviestForkAgreed
}

/// Takes the outcome of the outside work of the phase `state` into the phase
/// and into the record. An outcome that does not belong to the phase is
/// refused, and the record stays as it was.
pub fn complete_phase(
    state: WenRestartProgressInternalState,
    outcome: PhaseOutcome,
    config: &WenRestartConfig,
    progress: &mut WenRestartProgress,
) -> (r: Result<WenRestartProgressInternalState, WenRestartError>)
    ensures
        match r {
            Ok(completed) => outcome_fits(state@, outcome) && (completed@, final(progress)@)
                == completed_phase(
                state@,
                outcome,
                *config,
                old(progress)@,
                published_wallclock(final(progress)@),
            ),
            Err(e) => !outcome_fits(state@, outcome) && e@ == WenRestartErrorView::UnexpectedState(
                state@.recorded_state(),
            ) && final(progress)@ == old(progress)@,
        },
        r matches Ok(completed) ==> reads_no_hash(outcome) ==> increment_reads_hashes(completed@),
{
    match (state, outcome) {
        (
            WenRestartProgressInternalState::Init { last_voted_fork_slots, last_vote_bankhash },
            PhaseOutcome::Published,
        ) => {
            progress.my_last_voted_fork_slots = Some(
                send_restart_last_voted_fork_slots(
                    &last_voted_fork_slots,
                    last_vote_bankhash,
                    config.my_shred_version,
                ),
            );
            Ok(WenRestartProgressInternalState::Init { last_voted_fork_slots, last_vote_bankhash })
        },
        (
            WenRestartProgressInternalState::LastVotedForkSlots {
                last_voted_fork_slots,
                aggregate_final_result: None,
            },
            PhaseOutcome::Aggregated(result),
        ) => Ok(
            WenRestartProgressInternalState::LastVotedForkSlots {
                last_voted_fork_slots,
                aggregate_final_result: Some(result),
            },
        ),
        (
            WenRestartProgressInternalState::LastVotedForkSlots {
                last_voted_fork_slots,
                aggregate_final_result: Some(result),
            },
            PhaseOutcome::Nothing,
        ) => Ok(
            WenRestartProgressInternalState::LastVotedForkSlots {
                last_voted_fork_slots,
                aggregate_final_result: Some(result),
            },
        ),
        (
            WenRestartProgressInternalState::FindHeaviestFork {
                aggregate_final_result,
                my_heaviest_fork: None,
            },
            PhaseOutcome::HeaviestForkFound { slot, bankhash },
        ) => Ok(
            WenRestartProgressInternalState::FindHeaviestFork {
                aggregate_final_result,
                my_heaviest_fork: Some(
                    HeaviestForkRecord {
                        slot,
                        bankhash: bankhash.to_string(),
                        total_active_stake: 0,
                        wallclock: 0,
                        shred_version: config.my_shred_version as u32,
                        from: config.my_pubkey.to_string(),
                    },
                ),
            },
        ),
        (
            WenRestartProgressInternalState::FindHeaviestFork {
                aggregate_final_result,
                my_heaviest_fork: Some(fork),
            },
            PhaseOutcome::Nothing,
        ) => Ok(
            WenRestartProgressInternalState::FindHeaviestFork {
                aggregate_final_result,
                my_heaviest_fork: Some(fork),
            },
        ),
        (
            WenRestartProgressInternalState::HeaviestFork { .. },
            PhaseOutcome::HeaviestForkAgreed { slot, hash },
        ) => Ok(
            WenRestartProgressInternalState::HeaviestFork {
                my_heaviest_fork_slot: slot,
                my_heaviest_fork_hash: hash,
            },
        ),
        (
            WenRestartProgressInternalState::GenerateSnapshot {
                my_heaviest_fork_slot,
                my_snapshot: None,
            },
            PhaseOutcome::SnapshotGenerated { path, slot, bankhash, shred_version },
        ) => Ok(
            WenRestartProgressInternalState::GenerateSnapshot {
                my_heaviest_fork_slot,
                my_snapshot: Some(
                    GenerateSnapshotRecord {
                        path,
                        slot,
                        bankhash: bankhash.to_string(),
                        shred_version: shred_version as u32,
                    },
                ),
            },
        ),
        (
            WenRestartProgressInternalState::GenerateSnapshot {
                my_heaviest_fork_slot,
                my_snapshot: Some(snapshot),
            },
            PhaseOutcome::Nothing,
        ) => Ok(
            WenRestartProgressInternalState::GenerateSnapshot {
                my_heaviest_fork_slot,
                my_snapshot: Some(snapshot),
            },
        ),
        (state, _) => Err(WenRestartError::UnexpectedState(recorded_state_of(&state))),
    }
}

/// The phase that the record on disk shows while the validator is in the
/// phase `state`.
pub fn recorded_state_of(state: &WenRestartProgressInternalState) -> (recorded:
    crate::progress::RestartState)
    ensures
        recorded == state@.recorded_state(),
{
    match state {
        WenRestartProgressInternalState::Init { .. } => crate::progress::RestartState::Init,
        WenRestartProgressInternalState::LastVotedForkSlots { .. } => {
            crate::progress::RestartState::LastVotedForkSlots
        },
        WenRestartProgressInternalState::FindHeaviestFork { .. } => {
            crate::progress::RestartState::HeaviestFork
        },
        WenRestartProgressInternalState::HeaviestFork { .. } => {
            crate::progress::RestartState::HeaviestFork
        },
        WenRestartProgressInternalState::GenerateSnapshot { .. } => {
            crate::progress::RestartState::GenerateSnapshot
        },
        WenRestartProgressInternalState::Done { .. } => crate::progress::RestartState::Done,
    }
}

/// Whether `r` and `after` are what taking the outcome of the outside work in
/// and leaving the phase `state` comes to, with the record `before`.
///
/// An outcome that does not belong to the phase is refused with
/// `UnexpectedState`. A phase whose record holds a bank hash that is not the
/// base58 form of a hash is handed back. In both cases the record stays as it
/// was.
pub open spec fn advanced_as(
    r: Result<
        Result<WenRestartProgressInternalState, WenRestartError>,
        WenRestartProgressInternalState,
    >,
    after: WenRestartProgressView,
    state: WenRestartProgressInternalStateView,
    outcome: PhaseOutcome,
    config: WenRestartConfig,
    before: WenRestartProgressView,
) -> bool {
    if !outcome_fits(state, outcome) {
        &&& r matches Ok(Err(e))
        &&& e@ == WenRestartErrorView::UnexpectedState(state.recorded_state())
        &&& after == before
    } else {
        let completed = completed_phase(state, outcome, config, before, published_wallclock(after));
        if increment_reads_hashes(completed.0) {
            &&& r matches Ok(left)
            &&& advances_as(left, after, next_state(completed.0, completed.1), completed.1)
        } else {
            &&& r matches Err(handed_back)
            &&& handed_back@ == completed.0
            &&& after == before
        }
    }
}

/// Takes the outcome of the outside work of the phase `state` in and leaves
/// the phase: the step that the caller's loop makes once per phase. After
/// `Ok(Ok(_))` the caller writes the record to disk.
pub fn advance(
    state: WenRestartProgressInternalState,
    outcome: PhaseOutcome,
    config: &WenRestartConfig,
    progress: &mut WenRestartProgress,
) -> (r: Result<
    Result<WenRestartProgressInternalState, WenRestartError>,
    WenRestartProgressInternalState,
>)
    ensures
        advanced_as(r, final(progress)@, state@, outcome, *config, old(progress)@),
        outcome_fits(state@, outcome) && reads_no_hash(outcome) ==> r is Ok,
{
    match complete_phase(state, outcome, config, progress) {
        Ok(completed) => {
            let r = try_increment_and_write_wen_restart_records(completed, progress);
            r
        },
        Err(e) => Ok(Err(e)),
    }
}

/// Whether a phase is the last one, reached at `slot` with `shred_version`.
pub open spec fn is_done_with(
    state: WenRestartProgressInternalStateView,
    slot: Slot,
    shred_version: u16,
) -> bool {
    state matches WenRestartProgressInternalStateView::Done {
        slot: reached,
        shred_version: version,
        ..
    } && reached == slot && version == shred_version
}

/// The shred version that a snapshot was reported with is the one that its
/// record holds, and the one that the validator ends the restart with.
pub proof fn lemma_shred_version_is_recorded(
    state: WenRestartProgressInternalStateView,
    outcome: PhaseOutcome,
    config: WenRestartConfig,
    progress: WenRestartProgressView,
    wallclock: u64,
)
    requires
        state matches WenRestartProgressInternalStateView::GenerateSnapshot { my_snapshot: None, .. },
        outcome is SnapshotGenerated,
    ensures
        ({
            let reported = outcome->shred_version;
            let at = outcome->SnapshotGenerated_slot;
            let completed = completed_phase(state, outcome, config, progress, wallclock);
            &&& completed.0 matches WenRestartProgressInternalStateView::GenerateSnapshot {
                my_snapshot: Some(record),
                ..
            } && record.shred_version == reported as u32 && record.slot == at
            &&& next_state(completed.0, completed.1) matches Ok((done, written))
                && written.my_snapshot == completed.0->my_snapshot && is_done_with(
                done,
                at,
                reported,
            )
        }),
{
    let reported: u16 = outcome->shred_version;
}

} // verus!
