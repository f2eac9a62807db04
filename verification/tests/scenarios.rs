use std::collections::{HashMap, HashSet};
use wen_restart::coordinator::{
    check_coordinator_fork, receive_restart_heaviest_fork, repair_heaviest_fork,
    send_and_receive_heaviest_fork, verify_coordinator_heaviest_fork, Ancestor, VerifyAction,
};
use wen_restart::driver::{advance, phase_work, PhaseOutcome, PhaseWork, WenRestartConfig};
use wen_restart::error::WenRestartError;
use wen_restart::heaviest_fork::{
    find_bankhash_of_heaviest_fork, find_heaviest_fork, heaviest_fork_candidates, BankAtSlot,
    BlockMeta, ForkAction, ForkEvent, ReplayAction, ReplayEvent, ReplayProgress,
};
use wen_restart::heaviest_fork_aggregate::{
    aggregate_restart_heaviest_fork, start_aggregate_restart_heaviest_fork, RestartHeaviestFork,
};
use wen_restart::last_voted_fork_slots_aggregate::{
    LastVotedFork, LastVotedForkSlotsAggregate, RestartLastVotedForkSlots,
};
use wen_restart::last_voted_fork_slots_phase::{
    aggregate_restart_last_voted_fork_slots, resume_last_voted_fork_slots,
    start_last_voted_fork_slots_phase, LastVotedForkSlotsPhase, TickAction, TickEvent,
};
use wen_restart::progress::{
    GenerateSnapshotRecord, HeaviestForkRecord, LastVotedForkSlotsAggregateFinal,
    LastVotedForkSlotsAggregateRecord, LastVotedForkSlotsEpochInfoRecord,
    LastVotedForkSlotsRecord, RestartState, WenRestartProgress,
};
use wen_restart::pubkey::Pubkey;
use wen_restart::root_bank::{EpochStakes, NodeStake, RootBank};
use wen_restart::snapshot::{
    generate_snapshot, plan_snapshot, register_restart_hard_fork, SnapshotAction,
    SnapshotArchives, SnapshotEvent, SnapshotKind,
};
use wen_restart::state::{initialize, WenRestartProgressInternalState};
use wen_restart::string_map::StringMap;

const SHRED_VERSION: u16 = 2;
const EXPECTED_SLOTS: u64 = 40;
const TOTAL_VALIDATOR_COUNT: u16 = 20;
const MY_INDEX: usize = TOTAL_VALIDATOR_COUNT as usize - 1;
const COORDINATOR_INDEX: usize = 0;
const WAIT_FOR_SUPERMAJORITY_THRESHOLD_PERCENT: u64 = 80;
const NON_CONFORMING_VALIDATOR_PERCENT: u64 = 5;

fn bank_hash(slot: u64) -> wen_restart::hash::Hash {
    let mut bytes = [0x5au8; 32];
    bytes[0] = slot as u8;
    wen_restart::hash::Hash::new_from_array(bytes)
}

fn vote_hash(index: usize) -> wen_restart::hash::Hash {
    let mut bytes = [0x33u8; 32];
    bytes[1] = index as u8;
    wen_restart::hash::Hash::new_from_array(bytes)
}

fn node(index: usize) -> Pubkey {
    let mut bytes = [9u8; 32];
    bytes[0] = index as u8;
    Pubkey::new_from_array(bytes)
}

fn my_fork() -> Vec<u64> {
    let last_parent: u64 = 2;
    let mut last_voted_fork_slots: Vec<u64> = Vec::new();
    last_voted_fork_slots.extend(last_parent..last_parent + EXPECTED_SLOTS + 1);
    last_voted_fork_slots.insert(0, 0);
    last_voted_fork_slots.reverse();
    last_voted_fork_slots
}

fn stakes_of_everyone(epoch: u64) -> EpochStakes {
    EpochStakes {
        epoch,
        total_stake: 100 * TOTAL_VALIDATOR_COUNT as u64,
        node_stakes: (0..TOTAL_VALIDATOR_COUNT as usize)
            .map(|index| NodeStake { node: node(index), stake: 100 })
            .collect(),
    }
}

fn root_bank() -> RootBank {
    RootBank {
        slot: 0,
        epoch_schedule: solana_epoch_schedule::EpochSchedule::default(),
        epoch_stakes: vec![stakes_of_everyone(0), stakes_of_everyone(1)],
    }
}

fn config_of(my_index: usize, snapshots_enabled: bool) -> WenRestartConfig {
    WenRestartConfig {
        wen_restart_coordinator: node(COORDINATOR_INDEX),
        my_pubkey: node(my_index),
        my_shred_version: SHRED_VERSION,
        wait_for_supermajority_threshold_percent: WAIT_FOR_SUPERMAJORITY_THRESHOLD_PERCENT,
        snapshots_enabled,
        genesis_config_hash: bank_hash(250),
    }
}

fn message_of(index: usize, slots: &[u64], wallclock: u64) -> RestartLastVotedForkSlots {
    RestartLastVotedForkSlots {
        from: node(index),
        wallclock,
        last_voted_fork_slots: slots.to_vec(),
        last_voted_slot: *slots.iter().max().unwrap(),
        last_voted_hash: vote_hash(index),
        shred_version: SHRED_VERSION,
    }
}

/// The chain 0, 2, 3, ... of the test ledger, from `slot` back to the root.
fn ancestors_of(slot: u64) -> Vec<u64> {
    let mut chain = vec![];
    let mut at = slot;
    loop {
        chain.push(at);
        if at == 0 {
            return chain;
        }
        at = if at == 2 { 0 } else { at - 1 };
    }
}

/// The chain of `ancestors_of`, every block of it full.
fn full_chain(slot: u64) -> Vec<Ancestor> {
    ancestors_of(slot).into_iter().map(|slot| Ancestor { slot, is_full: true }).collect()
}

/// Checks the fork of the coordinator to the end, with a ledger that holds
/// every block of `chain` as the chain says, and with `local_hash` as the bank
/// hash that the replay finds: the slots that were replayed.
fn verify_with_full_ledger(
    my_heaviest_fork_slot: u64,
    coordinator_slot: u64,
    coordinator_hash: wen_restart::hash::Hash,
    chain: &Vec<Ancestor>,
    my_ancestors: &Vec<u64>,
    local_hash: wen_restart::hash::Hash,
) -> Result<Vec<u64>, WenRestartError> {
    let mut my_bankhash = None;
    let mut replayed = vec![];
    loop {
        match verify_coordinator_heaviest_fork(
            my_heaviest_fork_slot,
            coordinator_slot,
            &coordinator_hash,
            0,
            false,
            Some(chain),
            my_ancestors,
            my_bankhash,
        )? {
            VerifyAction::Repair(slots) => panic!("nothing is left to repair, not {slots:?}"),
            VerifyAction::Replay(slots) => {
                assert_eq!(my_bankhash, None);
                replayed = slots;
                my_bankhash = Some(local_hash);
            }
            VerifyAction::Verified => return Ok(replayed),
        }
    }
}

fn replay_all(slots: &Vec<u64>, frozen_up_to: u64) -> Result<u64, WenRestartError> {
    let mut progress = ReplayProgress { frozen: 0, parent_slot: 0 };
    let mut event = ReplayEvent::HeaviestBank(None);
    let mut replayed = vec![];
    loop {
        let (next, action) = find_bankhash_of_heaviest_fork(slots, 0, progress, event, false)?;
        progress = next;
        event = match action {
            ReplayAction::PrepareBank { slot, parent_slot } => {
                if slot > 2 {
                    assert_eq!(parent_slot, slot - 1);
                }
                ReplayEvent::BankReady { frozen: slot <= frozen_up_to }
            }
            ReplayAction::ReplayBlock { slot } => {
                replayed.push(slot);
                ReplayEvent::Replayed(None)
            }
            ReplayAction::HashOfBank { slot } => {
                let expected: Vec<u64> =
                    slots.iter().copied().filter(|slot| *slot > frozen_up_to).collect();
                assert_eq!(replayed, expected);
                return Ok(slot);
            }
            ReplayAction::Hash(_) => unreachable!(),
        };
    }
}

#[test]
fn test_wen_restart_normal_flow() {
    let last_voted_fork_slots = my_fork();
    let last_vote_slot = last_voted_fork_slots[0];
    let last_vote_bankhash = vote_hash(MY_INDEX);
    let expected_slots_to_repair: Vec<u64> = (last_vote_slot + 1..last_vote_slot + 3).collect();
    let config = config_of(MY_INDEX, true);

    let (state, mut progress) =
        initialize(None, &vec![last_vote_slot, 41], last_vote_bankhash).unwrap();
    assert_eq!(progress, WenRestartProgress::default());
    drop(state);
    let (state, _) = initialize(None, &last_voted_fork_slots, last_vote_bankhash).unwrap();
    assert!(matches!(
        phase_work(&state, &config).unwrap(),
        PhaseWork::PublishLastVotedForkSlots { .. }
    ));
    let state = advance(state, PhaseOutcome::Published, &config, &mut progress)
        .unwrap()
        .unwrap();
    let progress_start_time = progress.my_last_voted_fork_slots.as_ref().unwrap().wallclock;
    assert!(progress_start_time > 1_600_000_000_000);

    // The first phase: the others publish their forks, two slots longer than ours.
    assert_eq!(
        phase_work(&state, &config).unwrap(),
        PhaseWork::AggregateLastVotedForkSlots {
            last_voted_fork_slots: last_voted_fork_slots.clone()
        }
    );
    let mut aggregate =
        LastVotedForkSlotsAggregate::new(root_bank(), &last_voted_fork_slots, &config.my_pubkey);
    resume_last_voted_fork_slots(&mut aggregate, &mut progress, &vec![]);
    let validators_to_take: usize =
        (WAIT_FOR_SUPERMAJORITY_THRESHOLD_PERCENT * TOTAL_VALIDATOR_COUNT as u64 / 100 - 1) as usize;
    let mut last_voted_fork_slots_from_others = last_voted_fork_slots.clone();
    last_voted_fork_slots_from_others.reverse();
    last_voted_fork_slots_from_others.append(&mut expected_slots_to_repair.clone());
    let mut expected_received_last_voted_fork_slots = StringMap::new();
    let mut messages = vec![];
    for index in 0..validators_to_take {
        let now = 1000 + index as u64;
        messages.push(message_of(index, &last_voted_fork_slots_from_others, now));
        expected_received_last_voted_fork_slots.insert(
            node(index).to_string(),
            LastVotedForkSlotsRecord {
                last_voted_fork_slots: last_voted_fork_slots_from_others.clone(),
                last_vote_bankhash: vote_hash(index).to_string(),
                shred_version: SHRED_VERSION as u32,
                wallclock: now,
            },
        );
    }
    let threshold = config.wait_for_supermajority_threshold_percent;
    let phase = start_last_voted_fork_slots_phase(aggregate);
    let asked = aggregate_restart_last_voted_fork_slots(
        phase,
        TickEvent::Gossip(messages.clone()),
        threshold,
        false,
        &mut progress,
    );
    let Ok(TickAction::AskLedger { phase, slots: candidates }) = asked else {
        panic!("the ledger is asked first");
    };
    // Every slot after the root with enough stake is a candidate; the ledger
    // holds all of them but the two new ones.
    let mut expected_candidates = last_voted_fork_slots_from_others.clone();
    expected_candidates.remove(0);
    assert_eq!(candidates, expected_candidates);
    let full: Vec<bool> = candidates.iter().map(|slot| *slot <= last_vote_slot).collect();
    let answered = aggregate_restart_last_voted_fork_slots(
        phase,
        TickEvent::Ledger(full),
        threshold,
        false,
        &mut progress,
    );
    let Ok(TickAction::Repair { phase, repair_slots, write_record }) = answered else {
        panic!("two slots are left to repair");
    };
    assert!(write_record);
    assert_eq!(repair_slots, expected_slots_to_repair);
    assert_eq!(phase.is_full_slots.len(), candidates.len() - 2);
    // The same messages again change nothing. Simulating successful repair
    // of missing blocks: only the two slots that were not full are asked
    // about again.
    let asked = aggregate_restart_last_voted_fork_slots(
        phase,
        TickEvent::Gossip(messages),
        threshold,
        false,
        &mut progress,
    );
    let Ok(TickAction::AskLedger { phase, slots: candidates }) = asked else {
        panic!("the ledger is asked first");
    };
    assert!(!phase.write_record);
    assert_eq!(candidates, expected_slots_to_repair);
    let answered = aggregate_restart_last_voted_fork_slots(
        phase,
        TickEvent::Ledger(vec![true, true]),
        threshold,
        false,
        &mut progress,
    );
    let Ok(TickAction::Finished { final_result, repair_slots, write_record }) = answered else {
        panic!("the phase is over");
    };
    assert!(repair_slots.is_empty());
    assert!(!write_record);
    let mut expected_slots_stake_map: HashMap<u64, u64> = last_voted_fork_slots
        .iter()
        .map(|slot| (*slot, WAIT_FOR_SUPERMAJORITY_THRESHOLD_PERCENT * TOTAL_VALIDATOR_COUNT as u64))
        .collect();
    let stake_for_new_slots = validators_to_take as u64 * 100;
    expected_slots_stake_map
        .extend(expected_slots_to_repair.iter().map(|slot| (*slot, stake_for_new_slots)));
    assert_eq!(final_result.slots_stake_map, expected_slots_stake_map);
    let state = advance(state, PhaseOutcome::Aggregated(final_result), &config, &mut progress)
        .unwrap()
        .unwrap();

    // The heaviest fork: we replay the two repaired slots and pick the last.
    let result = match phase_work(&state, &config).unwrap() {
        PhaseWork::FindHeaviestFork { aggregate_final_result } => aggregate_final_result,
        other => panic!("unexpected work {:?}", other),
    };
    let slots = heaviest_fork_candidates(&result, &root_bank());
    assert_eq!(slots, expected_candidates);
    let my_heaviest_fork_slot = last_vote_slot + 2;
    let blocks: Vec<Option<BlockMeta>> = slots
        .iter()
        .map(|slot| {
            Some(BlockMeta {
                parent_slot: Some(if *slot == 2 { 0 } else { slot - 1 }),
                is_full: true,
            })
        })
        .collect();
    assert_eq!(
        find_heaviest_fork(&result, &root_bank(), ForkEvent::Begin, false),
        Ok(ForkAction::ReadBlocks(slots.clone()))
    );
    assert_eq!(
        find_heaviest_fork(&result, &root_bank(), ForkEvent::Blocks(blocks), false),
        Ok(ForkAction::Found { heaviest_fork_slot: my_heaviest_fork_slot, slots: slots.clone() })
    );
    assert_eq!(replay_all(&slots, last_vote_slot).unwrap(), my_heaviest_fork_slot);
    let my_heaviest_fork_bankhash = bank_hash(my_heaviest_fork_slot);
    let state = advance(
        state,
        PhaseOutcome::HeaviestForkFound {
            slot: my_heaviest_fork_slot,
            bankhash: my_heaviest_fork_bankhash,
        },
        &config,
        &mut progress,
    )
    .unwrap()
    .unwrap();
    assert_eq!(
        phase_work(&state, &config).unwrap(),
        PhaseWork::ExchangeHeaviestFork {
            my_heaviest_fork_slot,
            my_heaviest_fork_hash: my_heaviest_fork_bankhash
        }
    );

    // Now simulate receiving HeaviestFork messages from coordinator.
    let coordinator_heaviest_fork_slot = my_heaviest_fork_slot - 1;
    let coordinator_heaviest_fork_bankhash = bank_hash(coordinator_heaviest_fork_slot);
    let coordinator_wallclock = 77_000;
    let heard = receive_restart_heaviest_fork(
        config.wen_restart_coordinator,
        &vec![RestartHeaviestFork {
            from: node(COORDINATOR_INDEX),
            wallclock: coordinator_wallclock,
            last_slot: coordinator_heaviest_fork_slot,
            last_slot_hash: coordinator_heaviest_fork_bankhash,
            observed_stake: 0,
            shred_version: SHRED_VERSION,
        }],
        false,
        &mut progress,
    )
    .unwrap();
    assert_eq!(heard, Some((coordinator_heaviest_fork_slot, coordinator_heaviest_fork_bankhash)));
    let chain: Vec<Ancestor> = ancestors_of(coordinator_heaviest_fork_slot)
        .into_iter()
        .map(|slot| Ancestor { slot, is_full: true })
        .collect();
    assert!(repair_heaviest_fork(
        my_heaviest_fork_slot,
        coordinator_heaviest_fork_slot,
        false,
        Some(&chain)
    )
    .unwrap()
    .is_empty());
    let to_replay = check_coordinator_fork(
        my_heaviest_fork_slot,
        coordinator_heaviest_fork_slot,
        0,
        &ancestors_of(coordinator_heaviest_fork_slot),
        &ancestors_of(my_heaviest_fork_slot - 1),
    )
    .unwrap();
    let mut expected_replay = ancestors_of(coordinator_heaviest_fork_slot);
    expected_replay.reverse();
    assert_eq!(to_replay, expected_replay);
    let replayed = verify_with_full_ledger(
        my_heaviest_fork_slot,
        coordinator_heaviest_fork_slot,
        coordinator_heaviest_fork_bankhash,
        &chain,
        &ancestors_of(my_heaviest_fork_slot - 1),
        bank_hash(coordinator_heaviest_fork_slot),
    )
    .unwrap();
    assert_eq!(replayed, expected_replay);
    let exchange = send_and_receive_heaviest_fork(
        my_heaviest_fork_slot,
        my_heaviest_fork_bankhash,
        &config,
        Ok::<_, WenRestartError>((
            coordinator_heaviest_fork_slot,
            coordinator_heaviest_fork_bankhash,
        )),
    );
    assert_eq!(exchange.publish_slot, coordinator_heaviest_fork_slot);
    assert_eq!(exchange.publish_hash, coordinator_heaviest_fork_bankhash);
    assert!(!exchange.flush_and_wait);
    let state = advance(state, exchange.outcome.unwrap(), &config, &mut progress)
        .unwrap()
        .unwrap();

    // The snapshot: a full one exists at the old root, so an incremental one follows.
    assert_eq!(
        phase_work(&state, &config).unwrap(),
        PhaseWork::GenerateSnapshot { my_heaviest_fork_slot: coordinator_heaviest_fork_slot }
    );
    let mut hard_forks = solana_hard_forks::HardForks::default();
    assert!(register_restart_hard_fork(&mut hard_forks, coordinator_heaviest_fork_slot));
    let archives = || SnapshotArchives {
        should_generate_snapshots: true,
        full_snapshot_archives_dir: "/snapshots/full".to_string(),
        incremental_snapshot_archives_dir: "/snapshots/incremental".to_string(),
        highest_full_snapshot_slot: Some(0),
        highest_incremental_snapshot_slot: None,
    };
    assert_eq!(
        plan_snapshot(true, &archives(), coordinator_heaviest_fork_slot).unwrap(),
        SnapshotKind::Incremental(0)
    );
    assert_eq!(
        generate_snapshot(
            config.genesis_config_hash,
            &mut hard_forks,
            coordinator_heaviest_fork_slot,
            Some(coordinator_heaviest_fork_bankhash),
            SnapshotEvent::Begin,
        ),
        Ok(SnapshotAction::StopBackgroundService)
    );
    assert_eq!(
        generate_snapshot(
            config.genesis_config_hash,
            &mut hard_forks,
            coordinator_heaviest_fork_slot,
            Some(coordinator_heaviest_fork_bankhash),
            SnapshotEvent::ServiceStopped { archives: archives() },
        ),
        Ok(SnapshotAction::Archive(SnapshotKind::Incremental(0)))
    );
    let reported = generate_snapshot(
        config.genesis_config_hash,
        &mut hard_forks,
        coordinator_heaviest_fork_slot,
        Some(coordinator_heaviest_fork_bankhash),
        SnapshotEvent::Archived {
            archives: archives(),
            path: "/snapshots/incremental/snapshot-0-43".to_string(),
        },
    );
    let Ok(SnapshotAction::Report(outcome)) = reported else {
        panic!("the snapshot is reported");
    };
    let state = advance(state, outcome, &config, &mut progress).unwrap().unwrap();
    let expected_shred_version = solana_shred_version::compute_shred_version(
        &solana_hash::Hash::new_from_array(config.genesis_config_hash.to_bytes()),
        Some(&hard_forks),
    );
    assert_ne!(expected_shred_version, SHRED_VERSION);
    assert_eq!(
        state,
        WenRestartProgressInternalState::Done {
            slot: coordinator_heaviest_fork_slot,
            hash: coordinator_heaviest_fork_bankhash,
            shred_version: expected_shred_version,
        }
    );
    assert_eq!(
        phase_work(&state, &config).unwrap(),
        PhaseWork::Finish {
            slot: coordinator_heaviest_fork_slot,
            hash: coordinator_heaviest_fork_bankhash,
            shred_version: expected_shred_version,
            keep_aggregating: false,
        }
    );

    let voted_stake = (validators_to_take + 1) as u64 * 100;
    assert_eq!(
        progress,
        WenRestartProgress {
            state: RestartState::Done,
            my_last_voted_fork_slots: Some(LastVotedForkSlotsRecord {
                last_voted_fork_slots: last_voted_fork_slots,
                last_vote_bankhash: last_vote_bankhash.to_string(),
                shred_version: SHRED_VERSION as u32,
                wallclock: progress_start_time,
            }),
            last_voted_fork_slots_aggregate: Some(LastVotedForkSlotsAggregateRecord {
                received: expected_received_last_voted_fork_slots,
                final_result: Some(LastVotedForkSlotsAggregateFinal {
                    slots_stake_map: expected_slots_stake_map,
                    epoch_infos: vec![
                        LastVotedForkSlotsEpochInfoRecord {
                            epoch: 0,
                            total_stake: 2000,
                            actively_voting_stake: voted_stake,
                            actively_voting_for_this_epoch_stake: voted_stake,
                        },
                        LastVotedForkSlotsEpochInfoRecord {
                            epoch: 1,
                            total_stake: 2000,
                            actively_voting_stake: voted_stake,
                            actively_voting_for_this_epoch_stake: voted_stake,
                        },
                    ],
                }),
            }),
            my_heaviest_fork: Some(HeaviestForkRecord {
                slot: my_heaviest_fork_slot,
                bankhash: my_heaviest_fork_bankhash.to_string(),
                total_active_stake: 0,
                shred_version: SHRED_VERSION as u32,
                wallclock: 0,
                from: node(MY_INDEX).to_string(),
            }),
            heaviest_fork_aggregate: None,
            my_snapshot: Some(GenerateSnapshotRecord {
                slot: coordinator_heaviest_fork_slot,
                bankhash: coordinator_heaviest_fork_bankhash.to_string(),
                shred_version: expected_shred_version as u32,
                path: "/snapshots/incremental/snapshot-0-43".to_string(),
            }),
            coordinator_heaviest_fork: Some(HeaviestForkRecord {
                slot: coordinator_heaviest_fork_slot,
                bankhash: coordinator_heaviest_fork_bankhash.to_string(),
                total_active_stake: 0,
                shred_version: SHRED_VERSION as u32,
                wallclock: coordinator_wallclock,
                from: node(COORDINATOR_INDEX).to_string(),
            }),
            ..Default::default()
        }
    );
}

#[test]
fn test_wen_restart_divergence_across_epoch_boundary() {
    let last_vote_slot = my_fork()[0];
    // The root is the slot after our last vote, in epoch 1.
    let my_heaviest_fork_slot = last_vote_slot + 1;
    // For epoch 2, make validator 0 have 90% of the stake.
    let epoch2 = EpochStakes {
        epoch: 2,
        total_stake: 900 * (TOTAL_VALIDATOR_COUNT as u64 - 1) + 100 * (TOTAL_VALIDATOR_COUNT as u64 - 1),
        node_stakes: (0..TOTAL_VALIDATOR_COUNT as usize)
            .map(|index| NodeStake {
                node: node(index),
                stake: if index == 0 { 900 * (TOTAL_VALIDATOR_COUNT - 1) as u64 } else { 100 },
            })
            .collect(),
    };
    let new_root_bank = || RootBank {
        slot: my_heaviest_fork_slot,
        epoch_schedule: solana_epoch_schedule::EpochSchedule::default(),
        epoch_stakes: vec![stakes_of_everyone(0), stakes_of_everyone(1), epoch2.clone()],
    };
    assert_eq!(new_root_bank().epoch(), Some(1));
    // Two more blocks, both linked to the root: one in the old epoch, one in the new.
    let old_epoch_slot = my_heaviest_fork_slot + 1;
    let new_epoch_slot = new_root_bank().epoch_schedule.get_first_slot_in_epoch(2);
    assert_eq!(new_root_bank().get_epoch(new_epoch_slot), Some(2));
    let my_pubkey = node(MY_INDEX);
    let mut aggregate =
        LastVotedForkSlotsAggregate::new(new_root_bank(), &vec![my_heaviest_fork_slot], &my_pubkey);
    let mut progress = WenRestartProgress {
        state: RestartState::LastVotedForkSlots,
        ..Default::default()
    };
    resume_last_voted_fork_slots(&mut aggregate, &mut progress, &vec![]);
    // Validator 0 votes for the block of the new epoch, everyone else for that of the old.
    let mut messages = vec![];
    for index in 0..TOTAL_VALIDATOR_COUNT as usize - 1 {
        let slots = if index == 0 {
            vec![my_heaviest_fork_slot, new_epoch_slot]
        } else {
            vec![my_heaviest_fork_slot, old_epoch_slot]
        };
        messages.push(message_of(index, &slots, 5));
    }
    let asked = aggregate_restart_last_voted_fork_slots(
        start_last_voted_fork_slots_phase(aggregate),
        TickEvent::Gossip(messages),
        80,
        false,
        &mut progress,
    );
    let Ok(TickAction::AskLedger { phase, slots: candidates }) = asked else {
        panic!("the ledger is asked first");
    };
    assert!(phase.write_record);
    assert_eq!(candidates, vec![old_epoch_slot, new_epoch_slot]);
    let answered = aggregate_restart_last_voted_fork_slots(
        phase,
        TickEvent::Ledger(vec![true, true]),
        80,
        false,
        &mut progress,
    );
    let Ok(TickAction::Finished { final_result, .. }) = answered else {
        panic!("the phase is over");
    };
    let slots = heaviest_fork_candidates(&final_result, &new_root_bank());
    assert_eq!(slots, vec![old_epoch_slot, new_epoch_slot]);
    let blocks = vec![
        Some(BlockMeta { parent_slot: Some(my_heaviest_fork_slot), is_full: true }),
        Some(BlockMeta { parent_slot: Some(my_heaviest_fork_slot), is_full: true }),
    ];
    assert_eq!(
        find_heaviest_fork(&final_result, &new_root_bank(), ForkEvent::Blocks(blocks), false)
            .unwrap_err(),
        WenRestartError::BlockNotLinkedToExpectedParent(
            new_epoch_slot,
            Some(my_heaviest_fork_slot),
            old_epoch_slot
        )
    );
}

#[test]
fn test_wen_restart_aggregate_last_voted_fork_stop_and_restart() {
    let last_voted_fork_slots = my_fork();
    let last_vote_slot = last_voted_fork_slots[0];
    let last_vote_bankhash = vote_hash(MY_INDEX);
    let start_time = 12345;
    let my_record = LastVotedForkSlotsRecord {
        last_voted_fork_slots: last_voted_fork_slots.clone(),
        last_vote_bankhash: last_vote_bankhash.to_string(),
        shred_version: SHRED_VERSION as u32,
        wallclock: start_time,
    };
    let mut progress = WenRestartProgress {
        state: RestartState::LastVotedForkSlots,
        my_last_voted_fork_slots: Some(my_record.clone()),
        last_voted_fork_slots_aggregate: Some(LastVotedForkSlotsAggregateRecord {
            received: StringMap::new(),
            final_result: None,
        }),
        ..Default::default()
    };
    let expected_slots_to_repair: Vec<u64> = (last_vote_slot + 1..last_vote_slot + 3).collect();
    let mut last_voted_fork_slots_from_others = last_voted_fork_slots.clone();
    last_voted_fork_slots_from_others.reverse();
    last_voted_fork_slots_from_others.append(&mut expected_slots_to_repair.clone());
    let validators_to_take: usize =
        (WAIT_FOR_SUPERMAJORITY_THRESHOLD_PERCENT * TOTAL_VALIDATOR_COUNT as u64 / 100 - 1) as usize;
    let mut expected_messages = StringMap::new();
    let my_pubkey = node(MY_INDEX);
    for index in 0..validators_to_take {
        // Every round the validator starts anew from the record on disk.
        let (state, resumed) =
            initialize(Some(progress), &last_voted_fork_slots, last_vote_bankhash).unwrap();
        progress = resumed;
        assert_eq!(
            state,
            WenRestartProgressInternalState::LastVotedForkSlots {
                last_voted_fork_slots: last_voted_fork_slots.clone(),
                aggregate_final_result: None,
            }
        );
        let mut aggregate =
            LastVotedForkSlotsAggregate::new(root_bank(), &last_voted_fork_slots, &my_pubkey);
        let forks: Vec<Option<LastVotedFork>> = (0..index)
            .map(|_| {
                Some(LastVotedFork {
                    last_voted_slot: last_vote_slot + 2,
                    slots_from_root: last_voted_fork_slots_from_others.clone(),
                })
            })
            .collect();
        resume_last_voted_fork_slots(&mut aggregate, &mut progress, &forks);
        assert_eq!(aggregate.last_voted_fork_slots.len(), index);
        let now = 2000 + index as u64;
        let asked = aggregate_restart_last_voted_fork_slots(
            LastVotedForkSlotsPhase {
                aggregate,
                is_full_slots: HashSet::new(),
                asked: vec![],
                write_record: false,
            },
            TickEvent::Gossip(vec![message_of(index, &last_voted_fork_slots_from_others, now)]),
            WAIT_FOR_SUPERMAJORITY_THRESHOLD_PERCENT,
            false,
            &mut progress,
        );
        let Ok(TickAction::AskLedger { phase, .. }) = asked else {
            panic!("the ledger is asked first");
        };
        assert!(phase.write_record);
        let aggregate = phase.aggregate;
        expected_messages.insert(
            node(index).to_string(),
            LastVotedForkSlotsRecord {
                last_voted_fork_slots: last_voted_fork_slots_from_others.clone(),
                last_vote_bankhash: vote_hash(index).to_string(),
                shred_version: SHRED_VERSION as u32,
                wallclock: now,
            },
        );
        assert_eq!(
            progress,
            WenRestartProgress {
                state: RestartState::LastVotedForkSlots,
                my_last_voted_fork_slots: Some(my_record.clone()),
                last_voted_fork_slots_aggregate: Some(LastVotedForkSlotsAggregateRecord {
                    received: expected_messages.clone(),
                    final_result: None,
                }),
                ..Default::default()
            }
        );
        // An epoch counts once more than a third of its stake has voted in it.
        let voted_stake = (index as u64 + 2) * 100;
        let expected_percent = if 3 * voted_stake > 2000 { voted_stake * 100 / 2000 } else { 0 };
        assert_eq!(aggregate.min_active_percent(), expected_percent);
    }
}

#[test]
fn test_aggregate_heaviest_fork() {
    let heaviest_fork_slot = my_fork()[0] + 3;
    let heaviest_fork_bankhash = bank_hash(heaviest_fork_slot);
    let expected_active_stake = (WAIT_FOR_SUPERMAJORITY_THRESHOLD_PERCENT
        - NON_CONFORMING_VALIDATOR_PERCENT)
        * TOTAL_VALIDATOR_COUNT as u64;
    let config = config_of(MY_INDEX, false);
    let mut progress = WenRestartProgress {
        state: RestartState::HeaviestFork,
        my_heaviest_fork: Some(HeaviestForkRecord {
            slot: heaviest_fork_slot,
            bankhash: heaviest_fork_bankhash.to_string(),
            total_active_stake: WAIT_FOR_SUPERMAJORITY_THRESHOLD_PERCENT
                .saturating_mul(TOTAL_VALIDATOR_COUNT as u64),
            shred_version: SHRED_VERSION as u32,
            wallclock: 0,
            from: config.my_pubkey.to_string(),
        }),
        ..Default::default()
    };
    let mut aggregate =
        start_aggregate_restart_heaviest_fork(root_bank(), &config, &mut progress).unwrap();
    assert_eq!(aggregate.total_active_stake(), 100);
    let validators_to_take: usize =
        (WAIT_FOR_SUPERMAJORITY_THRESHOLD_PERCENT * TOTAL_VALIDATOR_COUNT as u64 / 100 - 1) as usize;
    let messages: Vec<RestartHeaviestFork> = (0..validators_to_take)
        .map(|index| RestartHeaviestFork {
            from: node(index),
            wallclock: 900 + index as u64,
            last_slot: heaviest_fork_slot,
            last_slot_hash: heaviest_fork_bankhash,
            observed_stake: expected_active_stake,
            shred_version: SHRED_VERSION,
        })
        .collect();
    let tick =
        aggregate_restart_heaviest_fork(&mut aggregate, &messages, 0, true, false, &mut progress)
            .unwrap()
            .unwrap();
    assert!(tick.changed);
    assert_eq!(tick.total_active_stake, (validators_to_take as u64 + 1) * 100);
    let record = progress.heaviest_fork_aggregate.as_ref().unwrap();
    assert_eq!(record.received.len(), validators_to_take);
    assert_eq!(record.total_active_stake, 1600);
    assert_eq!(record.received[3].from, node(3).to_string());
    assert_eq!(record.received[3].total_active_stake, expected_active_stake);
    // Nothing new: nothing to write.
    let tick =
        aggregate_restart_heaviest_fork(&mut aggregate, &messages, 1600, false, false, &mut progress)
            .unwrap()
            .unwrap();
    assert!(!tick.changed);
    assert_eq!(tick.total_active_stake, 1600);
}

#[test]
fn test_generate_snapshot() {
    let old_root_slot = 0;
    let new_root_slot = my_fork()[1];
    let genesis_config_hash = bank_hash(240);
    let full_dir = "/snapshots/full".to_string();
    let incremental_dir = "/snapshots/incremental".to_string();
    let archives = |should_generate_snapshots, full, incremental| SnapshotArchives {
        should_generate_snapshots,
        full_snapshot_archives_dir: full_dir.clone(),
        incremental_snapshot_archives_dir: incremental_dir.clone(),
        highest_full_snapshot_slot: full,
        highest_incremental_snapshot_slot: incremental,
    };
    // What the steps up to the archive say for a slot, with a bank at the
    // slot or none.
    let begin = |should_generate_snapshots, full, incremental, slot: u64, bank_exists: bool| {
        let mut hard_forks = solana_hard_forks::HardForks::default();
        let bankhash = if bank_exists { Some(bank_hash(slot)) } else { None };
        let first = generate_snapshot(
            genesis_config_hash,
            &mut hard_forks,
            slot,
            bankhash,
            SnapshotEvent::Begin,
        );
        assert_eq!(hard_forks.iter().copied().collect::<Vec<_>>(), vec![(slot, 1)]);
        if first != Ok(SnapshotAction::StopBackgroundService) {
            assert!(!bank_exists);
            return first;
        }
        let on_disk = archives(should_generate_snapshots, full, incremental);
        let planned = plan_snapshot(bank_exists, &on_disk, slot).map(SnapshotAction::Archive);
        let second = generate_snapshot(
            genesis_config_hash,
            &mut hard_forks,
            slot,
            bankhash,
            SnapshotEvent::ServiceStopped { archives: on_disk },
        );
        assert_eq!(second, planned);
        second
    };
    // We don't have any full snapshot, so a full snapshot is generated.
    assert_eq!(
        begin(true, None, None, old_root_slot, true),
        Ok(SnapshotAction::Archive(SnapshotKind::Full))
    );
    // With the full snapshot at the old root, the next one is incremental.
    assert_eq!(
        begin(true, Some(old_root_slot), None, new_root_slot, true),
        Ok(SnapshotAction::Archive(SnapshotKind::Incremental(old_root_slot)))
    );
    let mut hard_forks = solana_hard_forks::HardForks::default();
    let reported = generate_snapshot(
        genesis_config_hash,
        &mut hard_forks,
        new_root_slot,
        Some(bank_hash(new_root_slot)),
        SnapshotEvent::Archived {
            archives: archives(true, Some(old_root_slot), None),
            path: "incremental-snapshot".to_string(),
        },
    );
    let Ok(SnapshotAction::Report(generated)) = reported else {
        panic!("the snapshot is reported");
    };
    let new_shred_version = match &generated {
        PhaseOutcome::SnapshotGenerated { shred_version, .. } => *shred_version,
        other => panic!("unexpected outcome {:?}", other),
    };
    assert_ne!(new_shred_version, SHRED_VERSION);
    assert_eq!(
        new_shred_version,
        solana_shred_version::compute_shred_version(
            &solana_hash::Hash::new_from_array(genesis_config_hash.to_bytes()),
            Some(&hard_forks),
        )
    );
    assert_eq!(
        generated,
        PhaseOutcome::SnapshotGenerated {
            path: "incremental-snapshot".to_string(),
            slot: new_root_slot,
            bankhash: bank_hash(new_root_slot),
            shred_version: new_shred_version,
        }
    );
    // Now generate a snapshot for older slot, it should fail because we already
    // have a full snapshot.
    assert_eq!(
        begin(true, Some(old_root_slot), Some(new_root_slot), old_root_slot, true).unwrap_err(),
        WenRestartError::GenerateSnapshotWhenOneExists(old_root_slot, full_dir.clone()),
    );
    // fails if we already have an incremental snapshot (we just generated one at new_root_slot).
    let older_slot = new_root_slot - 1;
    assert_eq!(
        begin(true, Some(old_root_slot), Some(new_root_slot), older_slot, true).unwrap_err(),
        WenRestartError::FutureSnapshotExists(older_slot, new_root_slot, incremental_dir.clone()),
    );
    // Generate snapshot for a slot without any block, it should fail.
    let empty_slot = new_root_slot + 100;
    assert_eq!(
        begin(true, Some(old_root_slot), Some(new_root_slot), empty_slot, false).unwrap_err(),
        WenRestartError::BlockNotFound(empty_slot),
    );
    // Now turn off snapshot generation, we should generate a full snapshot.
    assert_eq!(
        begin(false, Some(old_root_slot), Some(new_root_slot), my_fork()[0], true),
        Ok(SnapshotAction::Archive(SnapshotKind::Full))
    );
}

#[test]
fn test_receive_restart_heaviest_fork() {
    let coordinator = node(COORDINATOR_INDEX);
    let random_slot = 3;
    let random_hash = bank_hash(3);
    let coordinator_slot = 6;
    let coordinator_hash = bank_hash(6);
    let messages = vec![
        RestartHeaviestFork {
            from: node(5),
            wallclock: 10,
            last_slot: random_slot,
            last_slot_hash: random_hash,
            observed_stake: 0,
            shred_version: SHRED_VERSION,
        },
        RestartHeaviestFork {
            from: coordinator,
            wallclock: 11,
            last_slot: coordinator_slot,
            last_slot_hash: coordinator_hash,
            observed_stake: 0,
            shred_version: SHRED_VERSION,
        },
    ];
    let mut progress = WenRestartProgress {
        state: RestartState::HeaviestFork,
        ..Default::default()
    };
    assert_eq!(
        receive_restart_heaviest_fork(coordinator, &messages, false, &mut progress)
            .unwrap()
            .unwrap(),
        (coordinator_slot, coordinator_hash)
    );
    assert_eq!(
        progress.coordinator_heaviest_fork,
        Some(HeaviestForkRecord {
            slot: coordinator_slot,
            bankhash: coordinator_hash.to_string(),
            total_active_stake: 0,
            shred_version: SHRED_VERSION as u32,
            wallclock: 11,
            from: coordinator.to_string(),
        })
    );
}

#[test]
fn test_repair_heaviest_fork() {
    let my_heaviest_fork_slot = 1;
    let coordinator_heaviest_slot_parent = 2;
    let coordinator_heaviest_slot = 3;
    // When there is nothing in blockstore, should repair the heaviest slot.
    assert_eq!(
        repair_heaviest_fork(my_heaviest_fork_slot, coordinator_heaviest_slot, false, None).unwrap(),
        vec![coordinator_heaviest_slot]
    );
    // Now add block 3, 3's parent is 2, should repair 2.
    let chain = vec![
        Ancestor { slot: coordinator_heaviest_slot, is_full: true },
        Ancestor { slot: coordinator_heaviest_slot_parent, is_full: false },
    ];
    assert_eq!(
        repair_heaviest_fork(my_heaviest_fork_slot, coordinator_heaviest_slot, false, Some(&chain))
            .unwrap(),
        vec![coordinator_heaviest_slot_parent]
    );
    // Insert 2 which links to 1, should exit now.
    let chain = vec![
        Ancestor { slot: coordinator_heaviest_slot, is_full: true },
        Ancestor { slot: coordinator_heaviest_slot_parent, is_full: true },
        Ancestor { slot: my_heaviest_fork_slot, is_full: false },
    ];
    assert!(repair_heaviest_fork(
        my_heaviest_fork_slot,
        coordinator_heaviest_slot,
        false,
        Some(&chain)
    )
    .unwrap()
    .is_empty());
}

#[test]
fn test_verify_coordinator_heaviest_fork() {
    let last_vote = my_fork()[0];
    // Create two forks: last_vote -> last_vote+1 and last_vote -> last_vote+2
    let coordinator_slot = last_vote + 1;
    let my_slot = last_vote + 2;
    let mut coordinator_ancestors = vec![coordinator_slot];
    coordinator_ancestors.extend(ancestors_of(last_vote));
    assert_eq!(
        check_coordinator_fork(
            my_slot,
            coordinator_slot,
            0,
            &coordinator_ancestors,
            &ancestors_of(last_vote)
        )
        .unwrap_err(),
        WenRestartError::HeaviestForkOnLeaderOnDifferentFork(coordinator_slot, my_slot)
    );
    let chain: Vec<Ancestor> = coordinator_ancestors
        .iter()
        .map(|slot| Ancestor { slot: *slot, is_full: true })
        .collect();
    // The two forks are not one: that is found before any bank hash is
    // looked at, and whatever the bank hash.
    for my_bankhash in [None, Some(bank_hash(0)), Some(wen_restart::hash::Hash::default())] {
        assert_eq!(
            verify_coordinator_heaviest_fork(
                my_slot,
                coordinator_slot,
                &wen_restart::hash::Hash::default(),
                0,
                false,
                Some(&chain),
                &ancestors_of(last_vote),
                my_bankhash,
            )
            .unwrap_err(),
            WenRestartError::HeaviestForkOnLeaderOnDifferentFork(coordinator_slot, my_slot)
        );
    }
    let coordinator_hash = bank_hash(99);
    let my_hash = bank_hash(0);
    let root_slot = 0;
    assert_eq!(
        check_coordinator_fork(root_slot, root_slot, root_slot, &vec![root_slot], &vec![]).unwrap(),
        vec![root_slot]
    );
    let root_chain = vec![Ancestor { slot: root_slot, is_full: true }];
    assert_eq!(
        verify_coordinator_heaviest_fork(
            root_slot,
            root_slot,
            &coordinator_hash,
            root_slot,
            false,
            Some(&root_chain),
            &vec![],
            None,
        ),
        Ok(VerifyAction::Replay(vec![root_slot]))
    );
    assert_eq!(
        verify_with_full_ledger(
            root_slot,
            root_slot,
            coordinator_hash,
            &root_chain,
            &vec![],
            my_hash
        )
        .unwrap_err(),
        WenRestartError::BankHashMismatch(root_slot, my_hash, coordinator_hash)
    );
    assert_eq!(
        verify_with_full_ledger(root_slot, root_slot, my_hash, &root_chain, &vec![], my_hash),
        Ok(vec![root_slot])
    );
    // What the ledger lacks is repaired before anything is checked, and a
    // validator about to exit stops until it has a bank hash.
    let verify = |exit, chain: Option<&Vec<Ancestor>>, my_bankhash| {
        verify_coordinator_heaviest_fork(
            last_vote,
            coordinator_slot,
            &coordinator_hash,
            root_slot,
            exit,
            chain,
            &ancestors_of(last_vote - 1),
            my_bankhash,
        )
    };
    assert_eq!(verify(false, None, None), Ok(VerifyAction::Repair(vec![coordinator_slot])));
    assert_eq!(
        verify(false, None, Some(coordinator_hash)),
        Ok(VerifyAction::Repair(vec![coordinator_slot]))
    );
    let mut missing = chain.clone();
    missing[0].is_full = false;
    assert_eq!(
        verify(false, Some(&missing), None),
        Ok(VerifyAction::Repair(vec![coordinator_slot]))
    );
    assert_eq!(verify(true, Some(&missing), None), Err(WenRestartError::Exiting));
    assert_eq!(verify(true, Some(&chain), None), Err(WenRestartError::Exiting));
    let mut ascending = coordinator_ancestors.clone();
    ascending.reverse();
    assert_eq!(verify(false, Some(&chain), None), Ok(VerifyAction::Replay(ascending)));
    assert_eq!(verify(true, Some(&chain), Some(coordinator_hash)), Ok(VerifyAction::Verified));
    assert_eq!(
        verify(false, Some(&chain), Some(my_hash)),
        Err(WenRestartError::BankHashMismatch(coordinator_slot, my_hash, coordinator_hash))
    );
}

#[test]
fn test_send_and_receive_heaviest_fork() {
    let last_vote = my_fork()[0];
    // The coordinator always sends its own choice.
    let coordinator_slot = last_vote;
    let coordinator_hash = bank_hash(coordinator_slot);
    // Set coordinator to myself, should return my choice.
    let mut config = config_of(MY_INDEX, false);
    config.wen_restart_coordinator = config.my_pubkey;
    let exchange = send_and_receive_heaviest_fork(
        coordinator_slot,
        coordinator_hash,
        &config,
        Err(WenRestartError::Exiting),
    );
    assert_eq!(
        exchange.outcome.unwrap(),
        PhaseOutcome::HeaviestForkAgreed { slot: coordinator_slot, hash: coordinator_hash }
    );
    assert_eq!(exchange.publish_slot, coordinator_slot);
    assert_eq!(exchange.publish_hash, coordinator_hash);
    // Now set the coordinator the someone else, need to return their choice.
    config.wen_restart_coordinator = node(COORDINATOR_INDEX);
    let my_slot = my_fork()[1];
    let my_hash = bank_hash(my_slot);
    let to_replay = check_coordinator_fork(
        my_slot,
        coordinator_slot,
        0,
        &ancestors_of(coordinator_slot),
        &ancestors_of(my_slot - 1),
    )
    .unwrap();
    assert_eq!(to_replay.len(), ancestors_of(coordinator_slot).len());
    let verified = verify_with_full_ledger(
        my_slot,
        coordinator_slot,
        coordinator_hash,
        &full_chain(coordinator_slot),
        &ancestors_of(my_slot - 1),
        bank_hash(coordinator_slot),
    )
    .map(|_| (coordinator_slot, coordinator_hash));
    let exchange = send_and_receive_heaviest_fork(my_slot, my_hash, &config, verified);
    assert_eq!(
        exchange.outcome.unwrap(),
        PhaseOutcome::HeaviestForkAgreed { slot: coordinator_slot, hash: coordinator_hash }
    );
    assert_eq!(exchange.publish_slot, coordinator_slot);
    assert_eq!(exchange.publish_hash, coordinator_hash);
    // my slot on a different fork, should exit with error but still push heaviest fork.
    let my_slot = coordinator_slot + 1;
    let my_hash = bank_hash(77);
    // The slot of the coordinator is now linked to 0 directly.
    let verified = verify_with_full_ledger(
        my_slot,
        coordinator_slot,
        coordinator_hash,
        &vec![
            Ancestor { slot: coordinator_slot, is_full: true },
            Ancestor { slot: 0, is_full: true },
        ],
        &ancestors_of(coordinator_slot - 1),
        coordinator_hash,
    )
    .map(|_| (coordinator_slot, coordinator_hash));
    let exchange = send_and_receive_heaviest_fork(my_slot, my_hash, &config, verified);
    assert_eq!(
        exchange.outcome.unwrap_err(),
        WenRestartError::HeaviestForkOnLeaderOnDifferentFork(coordinator_slot, my_slot)
    );
    assert_eq!(exchange.publish_slot, my_slot);
    assert_eq!(exchange.publish_hash, my_hash);
    assert!(exchange.flush_and_wait);
}

#[test]
fn test_find_bankhash_of_heaviest_fork() {
    let last_vote = my_fork()[0];
    let mut slots = my_fork();
    slots.reverse();
    // The bank of the heaviest slot exists: its hash is the answer.
    assert_eq!(
        find_bankhash_of_heaviest_fork(
            &slots,
            0,
            ReplayProgress { frozen: 0, parent_slot: 0 },
            ReplayEvent::HeaviestBank(Some(BankAtSlot {
                hash: bank_hash(last_vote),
                frozen: true
            })),
            false
        )
        .unwrap()
        .1,
        ReplayAction::Hash(bank_hash(last_vote))
    );
    // A bank that is not frozen has no hash to take: the fork is replayed
    // from the root on.
    assert_eq!(
        find_bankhash_of_heaviest_fork(
            &slots,
            0,
            ReplayProgress { frozen: 7, parent_slot: 9 },
            ReplayEvent::HeaviestBank(Some(BankAtSlot {
                hash: bank_hash(last_vote),
                frozen: false
            })),
            false
        )
        .unwrap(),
        (
            ReplayProgress { frozen: 0, parent_slot: 0 },
            ReplayAction::PrepareBank { slot: slots[0], parent_slot: 0 }
        )
    );
    let new_slot = last_vote + 1;
    slots.push(new_slot);
    assert_eq!(replay_all(&slots, last_vote).unwrap(), new_slot);
    // A bank that exists but is not frozen is replayed, not made anew.
    let slot_full_but_not_replayed = last_vote + 2;
    slots.push(slot_full_but_not_replayed);
    assert_eq!(replay_all(&slots, new_slot).unwrap(), slot_full_but_not_replayed);
    // Exiting stops the replay before the next slot.
    assert_eq!(
        find_bankhash_of_heaviest_fork(
            &slots,
            0,
            ReplayProgress { frozen: 3, parent_slot: 3 },
            ReplayEvent::Replayed(None),
            true
        )
        .unwrap_err(),
        WenRestartError::Exiting
    );
}

#[test]
fn divergent_coordinator_fails_after_own_fork_is_published() {
    let last_vote_slot = my_fork()[0];
    let config = config_of(MY_INDEX, true);
    let my_heaviest_fork_slot = last_vote_slot + 2;
    let my_heaviest_fork_bankhash = bank_hash(my_heaviest_fork_slot);
    // The coordinator publishes the slot before ours, with a hash that is not
    // the one that we compute for that slot.
    let coordinator_slot = last_vote_slot + 1;
    let coordinator_hash = bank_hash(200);
    let local_hash = bank_hash(coordinator_slot);
    let mut progress = WenRestartProgress {
        state: RestartState::HeaviestFork,
        ..Default::default()
    };
    let heard = receive_restart_heaviest_fork(
        config.wen_restart_coordinator,
        &vec![RestartHeaviestFork {
            from: node(COORDINATOR_INDEX),
            wallclock: 5,
            last_slot: coordinator_slot,
            last_slot_hash: coordinator_hash,
            observed_stake: 0,
            shred_version: SHRED_VERSION,
        }],
        false,
        &mut progress,
    )
    .unwrap();
    assert_eq!(heard, Some((coordinator_slot, coordinator_hash)));
    check_coordinator_fork(
        my_heaviest_fork_slot,
        coordinator_slot,
        0,
        &ancestors_of(coordinator_slot),
        &ancestors_of(my_heaviest_fork_slot - 1),
    )
    .unwrap();
    let verified = verify_with_full_ledger(
        my_heaviest_fork_slot,
        coordinator_slot,
        coordinator_hash,
        &full_chain(coordinator_slot),
        &ancestors_of(my_heaviest_fork_slot - 1),
        local_hash,
    )
    .map(|_| (coordinator_slot, coordinator_hash));
    let exchange = send_and_receive_heaviest_fork(
        my_heaviest_fork_slot,
        my_heaviest_fork_bankhash,
        &config,
        verified,
    );
    // Our own choice is published all the same, and leaves gossip before we stop.
    assert_eq!(exchange.publish_slot, my_heaviest_fork_slot);
    assert_eq!(exchange.publish_hash, my_heaviest_fork_bankhash);
    assert!(exchange.flush_and_wait);
    assert_eq!(
        exchange.outcome,
        Err(WenRestartError::BankHashMismatch(coordinator_slot, local_hash, coordinator_hash))
    );
    // What the coordinator said is on record; the phase has not been left.
    assert_eq!(progress.state, RestartState::HeaviestFork);
    assert_eq!(progress.coordinator_heaviest_fork.as_ref().unwrap().slot, coordinator_slot);
}

#[test]
fn resume_after_crash_skips_the_finder() {
    let config = config_of(MY_INDEX, true);
    let my_heaviest_fork = HeaviestForkRecord {
        slot: 44,
        bankhash: bank_hash(44).to_string(),
        total_active_stake: 0,
        shred_version: SHRED_VERSION as u32,
        wallclock: 0,
        from: node(MY_INDEX).to_string(),
    };
    let written = WenRestartProgress {
        state: RestartState::HeaviestFork,
        last_voted_fork_slots_aggregate: Some(LastVotedForkSlotsAggregateRecord {
            received: StringMap::new(),
            final_result: Some(LastVotedForkSlotsAggregateFinal {
                slots_stake_map: vec![(43, 1500), (44, 1500)].into_iter().collect(),
                epoch_infos: vec![LastVotedForkSlotsEpochInfoRecord {
                    epoch: 1,
                    total_stake: 2000,
                    actively_voting_stake: 1600,
                    actively_voting_for_this_epoch_stake: 1600,
                }],
            }),
        }),
        my_heaviest_fork: Some(my_heaviest_fork.clone()),
        ..Default::default()
    };
    let (state, mut progress) = initialize(Some(written.clone()), &my_fork(), vote_hash(1)).unwrap();
    assert!(matches!(
        &state,
        WenRestartProgressInternalState::FindHeaviestFork { my_heaviest_fork: Some(fork), .. }
            if *fork == my_heaviest_fork
    ));
    // The next tick does not run the finder, and moves on at once.
    assert_eq!(phase_work(&state, &config).unwrap(), PhaseWork::Nothing);
    let state = advance(state, PhaseOutcome::Nothing, &config, &mut progress).unwrap().unwrap();
    assert_eq!(
        state,
        WenRestartProgressInternalState::HeaviestFork {
            my_heaviest_fork_slot: 44,
            my_heaviest_fork_hash: bank_hash(44),
        }
    );
    assert_eq!(progress, written);

    // The coordinator publishes the slot before ours: we leave the exchange
    // with its slot, and a validator that stops in the snapshot phase comes
    // back to that slot, not to its own.
    let coordinator_hash = bank_hash(43);
    let heard = receive_restart_heaviest_fork(
        config.wen_restart_coordinator,
        &vec![RestartHeaviestFork {
            from: node(COORDINATOR_INDEX),
            wallclock: 7,
            last_slot: 43,
            last_slot_hash: coordinator_hash,
            observed_stake: 0,
            shred_version: SHRED_VERSION,
        }],
        false,
        &mut progress,
    )
    .unwrap();
    assert_eq!(heard, Some((43, coordinator_hash)));
    let exchange = send_and_receive_heaviest_fork(
        44,
        bank_hash(44),
        &config,
        Ok::<_, WenRestartError>((43, coordinator_hash)),
    );
    let state = advance(state, exchange.outcome.unwrap(), &config, &mut progress)
        .unwrap()
        .unwrap();
    let in_snapshot_phase =
        WenRestartProgressInternalState::GenerateSnapshot { my_heaviest_fork_slot: 43, my_snapshot: None };
    assert_eq!(state, in_snapshot_phase);
    assert_eq!(progress.state, RestartState::GenerateSnapshot);
    assert_eq!(progress.my_heaviest_fork.as_ref().unwrap().slot, 44);
    let (resumed, record) = initialize(Some(progress.clone()), &vec![], vote_hash(9)).unwrap();
    assert_eq!(resumed, in_snapshot_phase);
    assert_eq!(record, progress);
    assert_eq!(
        phase_work(&resumed, &config).unwrap(),
        PhaseWork::GenerateSnapshot { my_heaviest_fork_slot: 43 }
    );
    // The coordinator itself holds no such record, and comes back to its own slot.
    progress.coordinator_heaviest_fork = None;
    let (resumed, _) = initialize(Some(progress), &vec![], vote_hash(9)).unwrap();
    assert_eq!(
        resumed,
        WenRestartProgressInternalState::GenerateSnapshot { my_heaviest_fork_slot: 44, my_snapshot: None }
    );
}
