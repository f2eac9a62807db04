use std::collections::HashMap;
use wen_restart::driver::{
    advance, phase_work, send_restart_last_voted_fork_slots, PhaseOutcome, PhaseWork,
    WenRestartConfig,
};
use wen_restart::error::WenRestartError;
use wen_restart::heaviest_fork::{
    find_bankhash_of_heaviest_fork, find_heaviest_fork, heaviest_fork_candidates, BlockMeta,
    ForkAction, ForkEvent, ReplayAction, ReplayEvent, ReplayProgress,
};
use wen_restart::last_voted_fork_slots_aggregate::{
    LastVotedForkSlotsAggregate, LastVotedForkSlotsEpochInfo, LastVotedForkSlotsFinalResult,
};
use wen_restart::last_voted_fork_slots_phase::resume_last_voted_fork_slots;
use wen_restart::progress::{
    GenerateSnapshotRecord, HeaviestForkRecord, LastVotedForkSlotsAggregateFinal,
    LastVotedForkSlotsAggregateRecord, LastVotedForkSlotsEpochInfoRecord,
    LastVotedForkSlotsRecord, RestartState, WenRestartProgress,
};
use wen_restart::pubkey::Pubkey;
use wen_restart::root_bank::{EpochStakes, NodeStake, RootBank};
use wen_restart::state::{
    increment_and_write_wen_restart_records, initialize, WenRestartProgressInternalState,
};
use wen_restart::string_map::StringMap;

const SHRED_VERSION: u16 = 2;
const EXPECTED_SLOTS: u64 = 40;
const TOTAL_VALIDATOR_COUNT: u16 = 20;
const MY_INDEX: usize = TOTAL_VALIDATOR_COUNT as usize - 1;
const COORDINATOR_INDEX: usize = 0;

fn hash_of(seed: u8) -> wen_restart::hash::Hash {
    let mut bytes = [0u8; 32];
    bytes[0] = seed;
    bytes[31] = 1;
    wen_restart::hash::Hash::new_from_array(bytes)
}

fn validator(index: usize) -> Pubkey {
    let mut bytes = [7u8; 32];
    bytes[0] = index as u8;
    Pubkey::new_from_array(bytes)
}

/// The fork of the test ledger: slot 1 is skipped, 2 links to 0.
fn test_last_voted_fork_slots() -> Vec<u64> {
    let last_parent: u64 = 2;
    let mut last_voted_fork_slots: Vec<u64> = Vec::new();
    last_voted_fork_slots.extend(last_parent..last_parent + EXPECTED_SLOTS + 1);
    last_voted_fork_slots.insert(0, 0);
    last_voted_fork_slots.reverse();
    last_voted_fork_slots
}

/// What the test ledger says of a slot: the chain 0, 2, 3, ... up to `tip`.
fn test_block(slot: u64, tip: u64) -> Option<BlockMeta> {
    if slot == 0 {
        Some(BlockMeta { parent_slot: None, is_full: true })
    } else if slot == 2 {
        Some(BlockMeta { parent_slot: Some(0), is_full: true })
    } else if slot > 2 && slot <= tip {
        Some(BlockMeta { parent_slot: Some(slot - 1), is_full: true })
    } else {
        None
    }
}

fn test_root_bank() -> RootBank {
    let node_stakes: Vec<NodeStake> = (0..TOTAL_VALIDATOR_COUNT as usize)
        .map(|index| NodeStake { node: validator(index), stake: 100 })
        .collect();
    RootBank {
        slot: 0,
        epoch_schedule: solana_epoch_schedule::EpochSchedule::default(),
        epoch_stakes: vec![
            EpochStakes { epoch: 0, total_stake: 2000, node_stakes: node_stakes.clone() },
            EpochStakes { epoch: 1, total_stake: 2000, node_stakes },
        ],
    }
}

fn test_config() -> WenRestartConfig {
    WenRestartConfig {
        wen_restart_coordinator: validator(COORDINATOR_INDEX),
        my_pubkey: validator(MY_INDEX),
        my_shred_version: SHRED_VERSION,
        wait_for_supermajority_threshold_percent: 80,
        snapshots_enabled: false,
        genesis_config_hash: hash_of(200),
    }
}

fn progress_in(state: RestartState) -> WenRestartProgress {
    WenRestartProgress { state, ..Default::default() }
}

#[test]
fn test_wen_restart_initialize() {
    let last_vote_bankhash = hash_of(1);
    let last_voted_fork_slots = test_last_voted_fork_slots();
    let empty_last_vote: Vec<u64> = vec![];
    assert_eq!(
        initialize(None, &empty_last_vote, last_vote_bankhash).unwrap_err(),
        WenRestartError::MissingLastVotedForkSlots,
    );
    assert_eq!(
        initialize(
            Some(progress_in(RestartState::LastVotedForkSlots)),
            &last_voted_fork_slots,
            last_vote_bankhash
        )
        .err()
        .unwrap()
        .to_string(),
        "Malformed last voted fork slots protobuf: None"
    );
    let progress_missing_heaviest_fork_aggregate = WenRestartProgress {
        state: RestartState::HeaviestFork,
        my_heaviest_fork: Some(HeaviestForkRecord {
            slot: 0,
            bankhash: hash_of(2).to_string(),
            total_active_stake: 0,
            shred_version: SHRED_VERSION as u32,
            wallclock: 0,
            from: validator(3).to_string(),
        }),
        ..Default::default()
    };
    assert_eq!(
        initialize(
            Some(progress_missing_heaviest_fork_aggregate),
            &last_voted_fork_slots,
            last_vote_bankhash
        )
        .err()
        .unwrap()
        .to_string(),
        "Malformed progress: HeaviestFork missing final_result in \
         last_voted_fork_slots_aggregate",
    );
    let progress_missing_my_heaviestfork = WenRestartProgress {
        state: RestartState::GenerateSnapshot,
        my_snapshot: Some(GenerateSnapshotRecord {
            slot: 0,
            bankhash: hash_of(4).to_string(),
            shred_version: SHRED_VERSION as u32,
            path: "/path/to/snapshot".to_string(),
        }),
        ..Default::default()
    };
    assert_eq!(
        initialize(
            Some(progress_missing_my_heaviestfork),
            &last_voted_fork_slots,
            last_vote_bankhash
        )
        .err()
        .unwrap()
        .to_string(),
        "Malformed progress: GenerateSnapshot missing my_heaviest_fork",
    );

    // Now test successful initialization.
    // Test the case where the file is not found.
    assert_eq!(
        initialize(None, &last_voted_fork_slots, last_vote_bankhash).unwrap(),
        (
            WenRestartProgressInternalState::Init {
                last_voted_fork_slots: last_voted_fork_slots.clone(),
                last_vote_bankhash
            },
            progress_in(RestartState::Init)
        )
    );
    let progress = WenRestartProgress {
        state: RestartState::Init,
        my_last_voted_fork_slots: Some(LastVotedForkSlotsRecord {
            last_voted_fork_slots: last_voted_fork_slots.clone(),
            last_vote_bankhash: last_vote_bankhash.to_string(),
            shred_version: SHRED_VERSION as u32,
            wallclock: 0,
        }),
        ..Default::default()
    };
    assert_eq!(
        initialize(Some(progress.clone()), &last_voted_fork_slots, hash_of(9)).unwrap(),
        (
            WenRestartProgressInternalState::Init {
                last_voted_fork_slots: last_voted_fork_slots.clone(),
                last_vote_bankhash,
            },
            progress
        )
    );
    let progress = WenRestartProgress {
        state: RestartState::LastVotedForkSlots,
        my_last_voted_fork_slots: Some(LastVotedForkSlotsRecord {
            last_voted_fork_slots: last_voted_fork_slots.clone(),
            last_vote_bankhash: last_vote_bankhash.to_string(),
            shred_version: SHRED_VERSION as u32,
            wallclock: 0,
        }),
        ..Default::default()
    };
    assert_eq!(
        initialize(Some(progress.clone()), &last_voted_fork_slots, last_vote_bankhash).unwrap(),
        (
            WenRestartProgressInternalState::LastVotedForkSlots {
                last_voted_fork_slots: last_voted_fork_slots.clone(),
                aggregate_final_result: None,
            },
            progress
        )
    );
    let progress = WenRestartProgress {
        state: RestartState::HeaviestFork,
        my_heaviest_fork: Some(HeaviestForkRecord {
            slot: 0,
            bankhash: hash_of(5).to_string(),
            total_active_stake: 0,
            shred_version: SHRED_VERSION as u32,
            wallclock: 0,
            from: validator(6).to_string(),
        }),
        last_voted_fork_slots_aggregate: Some(LastVotedForkSlotsAggregateRecord {
            received: StringMap::new(),
            final_result: Some(LastVotedForkSlotsAggregateFinal {
                slots_stake_map: HashMap::new(),
                epoch_infos: vec![
                    LastVotedForkSlotsEpochInfoRecord {
                        epoch: 1,
                        total_stake: 1000,
                        actively_voting_stake: 800,
                        actively_voting_for_this_epoch_stake: 800,
                    },
                    LastVotedForkSlotsEpochInfoRecord {
                        epoch: 2,
                        total_stake: 1000,
                        actively_voting_stake: 900,
                        actively_voting_for_this_epoch_stake: 900,
                    },
                ],
            }),
        }),
        ..Default::default()
    };
    assert_eq!(
        initialize(Some(progress.clone()), &last_voted_fork_slots, last_vote_bankhash).unwrap(),
        (
            WenRestartProgressInternalState::FindHeaviestFork {
                aggregate_final_result: LastVotedForkSlotsFinalResult {
                    slots_stake_map: HashMap::new(),
                    epoch_info_vec: vec![
                        LastVotedForkSlotsEpochInfo {
                            epoch: 1,
                            total_stake: 1000,
                            actively_voting_stake: 800,
                            actively_voting_for_this_epoch_stake: 800,
                        },
                        LastVotedForkSlotsEpochInfo {
                            epoch: 2,
                            total_stake: 1000,
                            actively_voting_stake: 900,
                            actively_voting_for_this_epoch_stake: 900,
                        }
                    ],
                },
                my_heaviest_fork: progress.my_heaviest_fork.clone(),
            },
            progress
        )
    );
    let progress = WenRestartProgress {
        state: RestartState::GenerateSnapshot,
        my_heaviest_fork: Some(HeaviestForkRecord {
            slot: 0,
            bankhash: hash_of(7).to_string(),
            total_active_stake: 0,
            shred_version: SHRED_VERSION as u32,
            wallclock: 0,
            from: validator(8).to_string(),
        }),
        my_snapshot: Some(GenerateSnapshotRecord {
            slot: 0,
            bankhash: hash_of(9).to_string(),
            shred_version: SHRED_VERSION as u32,
            path: "/path/to/snapshot".to_string(),
        }),
        ..Default::default()
    };
    assert_eq!(
        initialize(Some(progress.clone()), &last_voted_fork_slots, last_vote_bankhash).unwrap(),
        (
            WenRestartProgressInternalState::GenerateSnapshot {
                my_heaviest_fork_slot: 0,
                my_snapshot: progress.my_snapshot.clone(),
            },
            progress,
        )
    );
    let last_vote_slot = last_voted_fork_slots[0];
    let snapshot_slot_hash = hash_of(10);
    let progress = WenRestartProgress {
        state: RestartState::Done,
        my_last_voted_fork_slots: Some(LastVotedForkSlotsRecord {
            last_voted_fork_slots: last_voted_fork_slots.clone(),
            last_vote_bankhash: last_vote_bankhash.to_string(),
            shred_version: SHRED_VERSION as u32,
            wallclock: 0,
        }),
        my_heaviest_fork: Some(HeaviestForkRecord {
            slot: last_vote_slot,
            bankhash: snapshot_slot_hash.to_string(),
            total_active_stake: 0,
            shred_version: SHRED_VERSION as u32,
            wallclock: 0,
            from: validator(11).to_string(),
        }),
        my_snapshot: Some(GenerateSnapshotRecord {
            slot: last_vote_slot,
            bankhash: snapshot_slot_hash.to_string(),
            shred_version: SHRED_VERSION as u32,
            path: "/path/to/snapshot".to_string(),
        }),
        ..Default::default()
    };
    assert_eq!(
        initialize(Some(progress.clone()), &last_voted_fork_slots, last_vote_bankhash).unwrap(),
        (
            WenRestartProgressInternalState::Done {
                slot: last_vote_slot,
                hash: snapshot_slot_hash,
                shred_version: SHRED_VERSION,
            },
            progress
        )
    );
}

/// Goes on from the record of a restart that has not begun: the fork is
/// sent and recorded, and the first phase begins.
fn send_and_begin_to_aggregate(progress: WenRestartProgress, last_vote_bankhash: wen_restart::hash::Hash) {
    let last_voted_fork_slots = test_last_voted_fork_slots();
    let config = test_config();
    let (state, mut progress) =
        initialize(Some(progress), &last_voted_fork_slots, last_vote_bankhash).unwrap();
    assert_eq!(
        phase_work(&state, &config).unwrap(),
        PhaseWork::PublishLastVotedForkSlots {
            last_voted_fork_slots: last_voted_fork_slots.clone(),
            last_vote_bankhash,
        }
    );
    let state = advance(state, PhaseOutcome::Published, &config, &mut progress)
        .unwrap()
        .unwrap();
    assert_eq!(
        state,
        WenRestartProgressInternalState::LastVotedForkSlots {
            last_voted_fork_slots: last_voted_fork_slots.clone(),
            aggregate_final_result: None,
        }
    );
    let mut aggregate = LastVotedForkSlotsAggregate::new(
        test_root_bank(),
        &last_voted_fork_slots,
        &config.my_pubkey,
    );
    resume_last_voted_fork_slots(&mut aggregate, &mut progress, &vec![]);
    if let Some(record) = progress.my_last_voted_fork_slots.as_mut() {
        record.wallclock = 0;
    }
    assert_eq!(
        progress,
        WenRestartProgress {
            state: RestartState::LastVotedForkSlots,
            my_last_voted_fork_slots: Some(LastVotedForkSlotsRecord {
                last_voted_fork_slots,
                last_vote_bankhash: last_vote_bankhash.to_string(),
                shred_version: SHRED_VERSION as u32,
                wallclock: 0,
            }),
            last_voted_fork_slots_aggregate: Some(LastVotedForkSlotsAggregateRecord {
                received: StringMap::new(),
                final_result: None,
            }),
            ..Default::default()
        },
    );
}

#[test]
fn test_wen_restart_send_last_voted_fork_failures() {
    let progress = progress_in(RestartState::Init);
    let original_progress = progress.clone();
    // Sending writes the fork down as it is handed in, with the time at
    // which it is written down, and leaves the record on disk alone. An empty
    // fork is written down as it is: it is the push into gossip that refuses it.
    let started = solana_time_utils::timestamp();
    let nothing: Vec<u64> = vec![];
    assert_eq!(
        send_restart_last_voted_fork_slots(&nothing, hash_of(1), SHRED_VERSION)
            .last_voted_fork_slots,
        nothing
    );
    let last_vote_bankhash = hash_of(2);
    let last_voted_fork_slots = test_last_voted_fork_slots();
    let record =
        send_restart_last_voted_fork_slots(&last_voted_fork_slots, last_vote_bankhash, SHRED_VERSION);
    assert!(record.wallclock >= started);
    assert!(record.wallclock <= solana_time_utils::timestamp());
    assert_eq!(
        record,
        LastVotedForkSlotsRecord {
            last_voted_fork_slots,
            last_vote_bankhash: last_vote_bankhash.to_string(),
            shred_version: SHRED_VERSION as u32,
            wallclock: record.wallclock,
        }
    );
    assert_eq!(progress, original_progress);
    send_and_begin_to_aggregate(progress, last_vote_bankhash);
}

#[test]
fn a_validator_without_a_last_voted_fork_sends_nothing() {
    let progress = progress_in(RestartState::Init);
    let original_progress = progress.clone();
    // A validator without a last voted fork has nothing to send.
    let nothing: Vec<u64> = vec![];
    assert_eq!(
        initialize(Some(progress.clone()), &nothing, hash_of(1))
            .err()
            .unwrap()
            .to_string(),
        "Missing last voted fork slots"
    );
    assert_eq!(progress, original_progress);
    // Continue normally after the error: the fork is sent and recorded.
    send_and_begin_to_aggregate(progress, hash_of(2));
}

#[test]
fn test_increment_and_write_wen_restart_records() {
    let last_vote_bankhash = hash_of(1);
    let my_last_voted_fork_slots = Some(LastVotedForkSlotsRecord {
        last_voted_fork_slots: vec![0, 1],
        last_vote_bankhash: last_vote_bankhash.to_string(),
        shred_version: 0,
        wallclock: 0,
    });
    let last_voted_fork_slots_aggregate = Some(LastVotedForkSlotsAggregateRecord {
        received: StringMap::new(),
        final_result: Some(LastVotedForkSlotsAggregateFinal {
            slots_stake_map: vec![(0, 900), (1, 800)].into_iter().collect(),
            epoch_infos: vec![LastVotedForkSlotsEpochInfoRecord {
                epoch: 0,
                total_stake: 2000,
                actively_voting_stake: 900,
                actively_voting_for_this_epoch_stake: 900,
            }],
        }),
    });
    let my_pubkey = validator(MY_INDEX);
    let my_heaviest_fork = Some(HeaviestForkRecord {
        slot: 1,
        bankhash: wen_restart::hash::Hash::default().to_string(),
        total_active_stake: 900,
        shred_version: SHRED_VERSION as u32,
        wallclock: 0,
        from: my_pubkey.to_string(),
    });
    let coordinator_heaviest_fork = Some(HeaviestForkRecord {
        slot: 2,
        bankhash: hash_of(2).to_string(),
        total_active_stake: 800,
        shred_version: SHRED_VERSION as u32,
        wallclock: 0,
        from: validator(3).to_string(),
    });
    let my_bankhash = hash_of(3);
    let new_shred_version = SHRED_VERSION + 57;
    let my_snapshot = Some(GenerateSnapshotRecord {
        slot: 1,
        bankhash: my_bankhash.to_string(),
        path: "snapshot_1".to_string(),
        shred_version: new_shred_version as u32,
    });
    let expected_slots_stake_map: HashMap<u64, u64> =
        vec![(0, 900), (1, 800)].into_iter().collect();
    for (entrance_state, exit_state, entrance_progress, exit_progress) in [
        (
            WenRestartProgressInternalState::Init {
                last_voted_fork_slots: vec![0, 1],
                last_vote_bankhash,
            },
            WenRestartProgressInternalState::LastVotedForkSlots {
                last_voted_fork_slots: vec![0, 1],
                aggregate_final_result: None,
            },
            WenRestartProgress {
                state: RestartState::LastVotedForkSlots,
                my_last_voted_fork_slots: my_last_voted_fork_slots.clone(),
                ..Default::default()
            },
            WenRestartProgress {
                state: RestartState::LastVotedForkSlots,
                my_last_voted_fork_slots: my_last_voted_fork_slots.clone(),
                ..Default::default()
            },
        ),
        (
            WenRestartProgressInternalState::LastVotedForkSlots {
                last_voted_fork_slots: vec![0, 1],
                aggregate_final_result: Some(LastVotedForkSlotsFinalResult {
                    slots_stake_map: expected_slots_stake_map.clone(),
                    epoch_info_vec: vec![LastVotedForkSlotsEpochInfo {
                        epoch: 0,
                        total_stake: 2000,
                        actively_voting_stake: 900,
                        actively_voting_for_this_epoch_stake: 900,
                    }],
                }),
            },
            WenRestartProgressInternalState::FindHeaviestFork {
                aggregate_final_result: LastVotedForkSlotsFinalResult {
                    slots_stake_map: expected_slots_stake_map.clone(),
                    epoch_info_vec: vec![LastVotedForkSlotsEpochInfo {
                        epoch: 0,
                        total_stake: 2000,
                        actively_voting_stake: 900,
                        actively_voting_for_this_epoch_stake: 900,
                    }],
                },
                my_heaviest_fork: None,
            },
            WenRestartProgress {
                state: RestartState::LastVotedForkSlots,
                my_last_voted_fork_slots: my_last_voted_fork_slots.clone(),
                last_voted_fork_slots_aggregate: last_voted_fork_slots_aggregate.clone(),
                ..Default::default()
            },
            WenRestartProgress {
                state: RestartState::HeaviestFork,
                my_last_voted_fork_slots: my_last_voted_fork_slots.clone(),
                last_voted_fork_slots_aggregate: last_voted_fork_slots_aggregate.clone(),
                ..Default::default()
            },
        ),
        (
            WenRestartProgressInternalState::FindHeaviestFork {
                aggregate_final_result: LastVotedForkSlotsFinalResult {
                    slots_stake_map: expected_slots_stake_map,
                    epoch_info_vec: vec![LastVotedForkSlotsEpochInfo {
                        epoch: 0,
                        total_stake: 2000,
                        actively_voting_stake: 900,
                        actively_voting_for_this_epoch_stake: 900,
                    }],
                },
                my_heaviest_fork: Some(HeaviestForkRecord {
                    slot: 1,
                    bankhash: wen_restart::hash::Hash::default().to_string(),
                    total_active_stake: 900,
                    shred_version: SHRED_VERSION as u32,
                    wallclock: 0,
                    from: my_pubkey.to_string(),
                }),
            },
            WenRestartProgressInternalState::HeaviestFork {
                my_heaviest_fork_slot: 1,
                my_heaviest_fork_hash: wen_restart::hash::Hash::default(),
            },
            WenRestartProgress {
                state: RestartState::HeaviestFork,
                my_last_voted_fork_slots: my_last_voted_fork_slots.clone(),
                last_voted_fork_slots_aggregate: last_voted_fork_slots_aggregate.clone(),
                ..Default::default()
            },
            WenRestartProgress {
                state: RestartState::HeaviestFork,
                my_last_voted_fork_slots: my_last_voted_fork_slots.clone(),
                last_voted_fork_slots_aggregate: last_voted_fork_slots_aggregate.clone(),
                my_heaviest_fork: my_heaviest_fork.clone(),
                ..Default::default()
            },
        ),
        (
            WenRestartProgressInternalState::HeaviestFork {
                my_heaviest_fork_slot: 1,
                my_heaviest_fork_hash: wen_restart::hash::Hash::default(),
            },
            WenRestartProgressInternalState::GenerateSnapshot {
                my_heaviest_fork_slot: 1,
                my_snapshot: None,
            },
            WenRestartProgress {
                state: RestartState::HeaviestFork,
                my_last_voted_fork_slots: my_last_voted_fork_slots.clone(),
                last_voted_fork_slots_aggregate: last_voted_fork_slots_aggregate.clone(),
                my_heaviest_fork: my_heaviest_fork.clone(),
                coordinator_heaviest_fork: coordinator_heaviest_fork.clone(),
                ..Default::default()
            },
            WenRestartProgress {
                state: RestartState::GenerateSnapshot,
                my_last_voted_fork_slots: my_last_voted_fork_slots.clone(),
                last_voted_fork_slots_aggregate: last_voted_fork_slots_aggregate.clone(),
                my_heaviest_fork: my_heaviest_fork.clone(),
                coordinator_heaviest_fork: coordinator_heaviest_fork.clone(),
                ..Default::default()
            },
        ),
        (
            WenRestartProgressInternalState::GenerateSnapshot {
                my_heaviest_fork_slot: 1,
                my_snapshot: my_snapshot.clone(),
            },
            WenRestartProgressInternalState::Done {
                slot: 1,
                hash: my_bankhash,
                shred_version: new_shred_version,
            },
            WenRestartProgress {
                state: RestartState::HeaviestFork,
                my_last_voted_fork_slots: my_last_voted_fork_slots.clone(),
                last_voted_fork_slots_aggregate: last_voted_fork_slots_aggregate.clone(),
                my_heaviest_fork: my_heaviest_fork.clone(),
                coordinator_heaviest_fork: coordinator_heaviest_fork.clone(),
                ..Default::default()
            },
            WenRestartProgress {
                state: RestartState::Done,
                my_last_voted_fork_slots: my_last_voted_fork_slots.clone(),
                last_voted_fork_slots_aggregate: last_voted_fork_slots_aggregate.clone(),
                my_heaviest_fork: my_heaviest_fork.clone(),
                coordinator_heaviest_fork,
                my_snapshot: my_snapshot.clone(),
                ..Default::default()
            },
        ),
    ] {
        let mut progress = entrance_progress;
        let state = increment_and_write_wen_restart_records(entrance_state, &mut progress).unwrap();
        assert_eq!(&state, &exit_state);
        assert_eq!(&progress, &exit_progress);
    }
    let mut progress = WenRestartProgress {
        state: RestartState::Done,
        my_last_voted_fork_slots: my_last_voted_fork_slots.clone(),
        last_voted_fork_slots_aggregate: last_voted_fork_slots_aggregate.clone(),
        ..Default::default()
    };
    assert_eq!(
        increment_and_write_wen_restart_records(
            WenRestartProgressInternalState::Done {
                slot: 1,
                hash: my_bankhash,
                shred_version: new_shred_version,
            },
            &mut progress
        )
        .unwrap_err(),
        WenRestartError::UnexpectedState(RestartState::Done),
    );
}

/// Runs the finder as the caller does: candidates, then the blocks of the
/// ledger, then the chain, then the replay with the banks as given.
fn run_find_heaviest_fork(
    aggregate_final_result: LastVotedForkSlotsFinalResult,
    block_of: &dyn Fn(u64) -> Option<BlockMeta>,
    replay_of: &dyn Fn(u64) -> Result<bool, String>,
) -> Result<u64, WenRestartError> {
    let root_bank = test_root_bank();
    let asked =
        find_heaviest_fork(&aggregate_final_result, &root_bank, ForkEvent::Begin, false)?;
    let ForkAction::ReadBlocks(candidates) = asked else {
        panic!("the blocks are asked for first");
    };
    assert_eq!(candidates, heaviest_fork_candidates(&aggregate_final_result, &root_bank));
    let blocks: Vec<Option<BlockMeta>> =
        candidates.iter().map(|slot| block_of(*slot)).collect();
    let found = find_heaviest_fork(
        &aggregate_final_result,
        &root_bank,
        ForkEvent::Blocks(blocks),
        false,
    )?;
    let ForkAction::Found { heaviest_fork_slot, slots } = found else {
        panic!("the search is over");
    };
    assert_eq!(slots, candidates);
    let mut progress = ReplayProgress { frozen: 0, parent_slot: root_bank.slot };
    let mut event = ReplayEvent::HeaviestBank(None);
    loop {
        let (next, action) =
            find_bankhash_of_heaviest_fork(&slots, root_bank.slot, progress, event, false)?;
        progress = next;
        event = match action {
            ReplayAction::PrepareBank { slot, .. } => match replay_of(slot) {
                Ok(frozen) => ReplayEvent::BankReady { frozen },
                Err(_) => ReplayEvent::BankReady { frozen: false },
            },
            ReplayAction::ReplayBlock { slot } => match replay_of(slot) {
                Err(why) => ReplayEvent::Replayed(Some(why)),
                Ok(_) => ReplayEvent::Replayed(None),
            },
            ReplayAction::HashOfBank { slot } => {
                assert_eq!(slot, heaviest_fork_slot);
                return Ok(slot);
            }
            ReplayAction::Hash(_) => return Ok(heaviest_fork_slot),
        };
    }
}

#[test]
fn test_find_heaviest_fork_failures() {
    let last_voted_fork_slots = test_last_voted_fork_slots();
    let last_vote_slot = last_voted_fork_slots[0];
    let slot_with_no_block = 1;
    let all_frozen = |_slot: u64| -> Result<bool, String> { Ok(true) };
    // This fails because corresponding block is not found, which is wrong, we should have
    // repaired all eligible blocks when we exit LastVotedForkSlots state.
    assert_eq!(
        run_find_heaviest_fork(
            LastVotedForkSlotsFinalResult {
                slots_stake_map: vec![(0, 900), (slot_with_no_block, 800)].into_iter().collect(),
                epoch_info_vec: vec![LastVotedForkSlotsEpochInfo {
                    epoch: 0,
                    total_stake: 1000,
                    actively_voting_stake: 900,
                    actively_voting_for_this_epoch_stake: 900,
                }],
            },
            &|slot| test_block(slot, last_vote_slot),
            &all_frozen,
        )
        .unwrap_err(),
        WenRestartError::BlockNotFound(slot_with_no_block),
    );
    // The following fails because we expect to see the first slot in slots_stake_map doesn't chain to local root.
    assert_eq!(
        run_find_heaviest_fork(
            LastVotedForkSlotsFinalResult {
                slots_stake_map: vec![(3, 900)].into_iter().collect(),
                epoch_info_vec: vec![LastVotedForkSlotsEpochInfo {
                    epoch: 0,
                    total_stake: 1000,
                    actively_voting_stake: 900,
                    actively_voting_for_this_epoch_stake: 900,
                }],
            },
            &|slot| test_block(slot, last_vote_slot),
            &all_frozen,
        )
        .unwrap_err(),
        WenRestartError::BlockNotLinkedToExpectedParent(3, Some(2), 0),
    );
    // The following fails because we expect to see the some slot in slots_stake_map doesn't chain to the
    // one before it.
    assert_eq!(
        run_find_heaviest_fork(
            LastVotedForkSlotsFinalResult {
                slots_stake_map: vec![(2, 900), (5, 900)].into_iter().collect(),
                epoch_info_vec: vec![LastVotedForkSlotsEpochInfo {
                    epoch: 0,
                    total_stake: 1000,
                    actively_voting_stake: 900,
                    actively_voting_for_this_epoch_stake: 900,
                }],
            },
            &|slot| test_block(slot, last_vote_slot),
            &all_frozen,
        )
        .unwrap_err(),
        WenRestartError::BlockNotLinkedToExpectedParent(5, Some(4), 2),
    );
    // The following fails because the new slot is not full.
    let not_full_slot = last_vote_slot + 5;
    let parent_slot = last_vote_slot;
    let mut slots_stake_map: HashMap<u64, u64> =
        last_voted_fork_slots.iter().map(|slot| (*slot, 900)).collect();
    slots_stake_map.insert(not_full_slot, 800);
    assert_eq!(
        run_find_heaviest_fork(
            LastVotedForkSlotsFinalResult {
                slots_stake_map,
                epoch_info_vec: vec![
                    LastVotedForkSlotsEpochInfo {
                        epoch: 0,
                        total_stake: 1000,
                        actively_voting_stake: 900,
                        actively_voting_for_this_epoch_stake: 900,
                    },
                    LastVotedForkSlotsEpochInfo {
                        epoch: 1,
                        total_stake: 1000,
                        actively_voting_stake: 900,
                        actively_voting_for_this_epoch_stake: 900,
                    },
                ],
            },
            &|slot| {
                if slot == not_full_slot {
                    Some(BlockMeta { parent_slot: Some(parent_slot), is_full: false })
                } else {
                    test_block(slot, last_vote_slot)
                }
            },
            &all_frozen,
        )
        .unwrap_err(),
        WenRestartError::BlockNotFull(not_full_slot)
    );
    // The following fails because we added two blocks at the end of the chain, they are full in blockstore
    // but the parent of the first one is missing.
    let missing_parent = last_vote_slot.saturating_add(1);
    let new_slot = last_vote_slot.saturating_add(2);
    let mut slots_stake_map: HashMap<u64, u64> =
        last_voted_fork_slots.iter().map(|slot| (*slot, 900)).collect();
    slots_stake_map.insert(missing_parent, 800);
    slots_stake_map.insert(new_slot, 800);
    assert_eq!(
        run_find_heaviest_fork(
            LastVotedForkSlotsFinalResult {
                slots_stake_map,
                epoch_info_vec: vec![
                    LastVotedForkSlotsEpochInfo {
                        epoch: 0,
                        total_stake: 1000,
                        actively_voting_stake: 900,
                        actively_voting_for_this_epoch_stake: 900,
                    },
                    LastVotedForkSlotsEpochInfo {
                        epoch: 1,
                        total_stake: 1000,
                        actively_voting_stake: 900,
                        actively_voting_for_this_epoch_stake: 900,
                    },
                ],
            },
            &|slot| test_block(slot, new_slot),
            &|slot| {
                if slot <= last_vote_slot {
                    Ok(true)
                } else if slot == missing_parent {
                    Err("invalid block error: incomplete block".to_string())
                } else {
                    Ok(false)
                }
            },
        )
        .unwrap_err(),
        WenRestartError::BlockNotFrozenAfterReplay(
            missing_parent,
            Some("invalid block error: incomplete block".to_string())
        ),
    );
}

#[test]
fn test_return_ok_after_wait_is_done() {
    let last_voted_fork_slots = test_last_voted_fork_slots();
    let last_vote_bankhash = hash_of(1);
    let config = test_config();
    assert_eq!(
        initialize(
            Some(progress_in(RestartState::Done)),
            &last_voted_fork_slots,
            last_vote_bankhash
        )
        .unwrap_err(),
        WenRestartError::MissingSnapshotInProtobuf
    );
    let snapshot_hash = hash_of(2);
    let (state, _progress) = initialize(
        Some(WenRestartProgress {
            state: RestartState::Done,
            my_snapshot: Some(GenerateSnapshotRecord {
                slot: 0,
                bankhash: snapshot_hash.to_string(),
                shred_version: SHRED_VERSION as u32,
                path: "snapshot".to_string(),
            }),
            ..Default::default()
        }),
        &last_voted_fork_slots,
        last_vote_bankhash,
    )
    .unwrap();
    // The validator is not the coordinator: it has nothing left to do.
    assert_eq!(
        phase_work(&state, &config).unwrap(),
        PhaseWork::Finish {
            slot: 0,
            hash: snapshot_hash,
            shred_version: SHRED_VERSION,
            keep_aggregating: false,
        }
    );
}
