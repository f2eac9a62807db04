//! Finding the heaviest fork: the slots after the root that enough stake
//! stands behind must form one chain from the root, and the last of them is
//! the slot to restart from.

use crate::error::{WenRestartError, WenRestartErrorView};
use crate::last_voted_fork_slots_aggregate::{
    LastVotedForkSlotsEpochInfo, LastVotedForkSlotsFinalResult, LastVotedForkSlotsFinalResultView,
};
use crate::root_bank::{first_wanted, lemma_first_wanted, lemma_none_wanted, RootBank};
use crate::slots::{ascending, lemma_ascending_is_unique, sort_slots};
use solana_clock::{Epoch, Slot};
use std::collections::HashMap;
use vstd::prelude::*;
use vstd::std_specs::iter::IteratorSpec;

verus! {

/// Of the whole stake of an epoch, the share in percent by which the stake
/// behind a slot may fall short of the stake heard from: two thirds make a
/// supermajority, five percent may misbehave, and what has not been heard from
/// cannot be counted.
pub const HEAVIEST_FORK_THRESHOLD_DELTA_PERCENT: u64 = 38;

/// Whether the stake behind a slot is no less than the stake heard from in
/// the epoch of the slot, less 38 percent of the whole stake of that epoch.
pub open spec fn over_stake_threshold(info: LastVotedForkSlotsEpochInfo, stake: u64) -> bool {
    100 * stake + HEAVIEST_FORK_THRESHOLD_DELTA_PERCENT * info.total_stake >= 100
        * info.actively_voting_stake
}

/// Whether the stake behind a slot of `epoch` counts: the figures of the
/// epoch are known, and the stake is over their threshold.
pub open spec fn stake_counts(
    epoch_info_vec: Seq<LastVotedForkSlotsEpochInfo>,
    epoch: Epoch,
    stake: u64,
) -> bool {
    match first_wanted(epoch_info_vec, |info: LastVotedForkSlotsEpochInfo| info.epoch == epoch) {
        Some(info) => over_stake_threshold(info, stake),
        None => false,
    }
}

/// Whether the stake behind a slot of `epoch` counts for the heaviest fork.
pub fn is_over_stake_threshold(
    epoch_info_vec: &Vec<LastVotedForkSlotsEpochInfo>,
    epoch: Epoch,
    stake: u64,
) -> (over: bool)
    ensures
        over == stake_counts(epoch_info_vec@, epoch, stake),
{
    let ghost wanted = |info: LastVotedForkSlotsEpochInfo| info.epoch == epoch;
    let mut i: usize = 0;
    while i < epoch_info_vec.len()
        invariant
            i <= epoch_info_vec@.len(),
            wanted == |info: LastVotedForkSlotsEpochInfo| info.epoch == epoch,
            forall|j: int| 0 <= j < i ==> !wanted(#[trigger] epoch_info_vec@[j]),
        decreases epoch_info_vec@.len() - i,
    {
        let info = &epoch_info_vec[i];
        if info.epoch == epoch {
            proof {
                lemma_first_wanted(epoch_info_vec@, wanted, i as int);
            }
            let delta: u128 = HEAVIEST_FORK_THRESHOLD_DELTA_PERCENT as u128;
            let behind: u128 = 100 * (stake as u128) + delta * (info.total_stake as u128);
            let heard: u128 = 100 * (info.actively_voting_stake as u128);
            return behind >= heard;
        }
        i += 1;
    }
    proof {
        lemma_none_wanted(epoch_info_vec@, wanted);
    }
    false
}

/// Whether a slot is a candidate for the heaviest fork: it lies after the
/// root, the schedule gives it an epoch, and the stake behind it counts in
/// that epoch.
pub open spec fn is_candidate(
    result: LastVotedForkSlotsFinalResultView,
    bank: RootBank,
    slot: Slot,
) -> bool {
    &&& result.slots_stake_map.contains_key(slot)
    &&& slot > bank.slot
    &&& bank.has_epoch(slot)
    &&& stake_counts(result.epoch_info_vec, bank.epoch_of(slot), result.slots_stake_map[slot])
}

/// Whether `slots` lists the candidates for the heaviest fork in ascending
/// order, each once.
pub open spec fn is_candidate_list(
    slots: Seq<Slot>,
    result: LastVotedForkSlotsFinalResultView,
    bank: RootBank,
) -> bool {
    &&& ascending(slots)
    &&& forall|slot: Slot| slots.contains(slot) <==> is_candidate(result, bank, slot)
}

/// The candidates for the heaviest fork, in ascending order.
pub open spec fn candidate_list(result: LastVotedForkSlotsFinalResultView, bank: RootBank) -> Seq<
    Slot,
> {
    choose|slots: Seq<Slot>| is_candidate_list(slots, result, bank)
}

/// The candidates for the heaviest fork, in ascending order.
pub fn heaviest_fork_candidates(
    aggregate_final_result: &LastVotedForkSlotsFinalResult,
    root_bank: &RootBank,
) -> (slots: Vec<Slot>)
    ensures
        is_candidate_list(slots@, aggregate_final_result@, *root_bank),
        slots@ == candidate_list(aggregate_final_result@, *root_bank),
{
    broadcast use vstd::std_specs::hash::group_hash_axioms;

    let map = &aggregate_final_result.slots_stake_map;
    let ghost all = vstd::std_specs::hash::spec_keys_iter(map).remaining();
    let ghost result = aggregate_final_result@;
    let mut slots: Vec<Slot> = Vec::new();
    for key in it: map.keys()
        invariant
            it.seq() == all,
            all.no_duplicates(),
            all.unref().to_set() == map@.dom(),
            map@ == result.slots_stake_map,
            result == aggregate_final_result@,
            slots@.no_duplicates(),
            forall|slot: Slot|
                slots@.contains(slot) <==> (exists|j: int|
                    0 <= j < it.index() && *all[j] == slot && is_candidate(result, *root_bank, slot)),
    {
        let slot = *key;
        let ghost at = it.index();
        let ghost before = slots@;
        let stake = match map.get(&slot) {
            Some(stake) => *stake,
            None => 0,
        };
        let counts = match root_bank.get_epoch(slot) {
            Some(epoch) => is_over_stake_threshold(
                &aggregate_final_result.epoch_info_vec,
                epoch,
                stake,
            ),
            None => false,
        };
        if slot > root_bank.slot && counts {
            assert(!before.contains(slot));
            slots.push(slot);
            assert forall|s: Slot|
                slots@.contains(s) <==> (exists|j: int|
                    0 <= j < at + 1 && *all[j] == s && is_candidate(result, *root_bank, s)) by {
                if slots@.contains(s) {
                    let k = choose|k: int| 0 <= k < slots@.len() && slots@[k] == s;
                    if k < before.len() {
                        assert(before.contains(s));
                    }
                }
                if exists|j: int|
                    0 <= j < at + 1 && *all[j] == s && is_candidate(result, *root_bank, s) {
                    let j = choose|j: int|
                        0 <= j < at + 1 && *all[j] == s && is_candidate(result, *root_bank, s);
                    if j < at {
                        assert(before.contains(s));
                        let k = choose|k: int| 0 <= k < before.len() && before[k] == s;
                        assert(slots@[k] == s);
                    } else {
                        assert(slots@[before.len() as int] == s);
                    }
                }
            }
        }
    }
    let ghost unsorted = slots@;
    sort_slots(&mut slots);
    proof {
        assert forall|slot: Slot|
            slots@.contains(slot) <==> is_candidate(result, *root_bank, slot) by {
            assert(slots@.to_set().contains(slot) <==> unsorted.to_set().contains(slot));
        }
        assert(is_candidate_list(slots@, result, *root_bank));
        lemma_ascending_is_unique(slots@, candidate_list(result, *root_bank));
    }
    slots
}

/// What the ledger says of the block at a slot.
#[derive(Clone, Copy, Debug, PartialEq, Eq, Structural)]
pub struct BlockMeta {
    /// The slot that the block is linked to as its parent, where it is known.
    pub parent_slot: Option<Slot>,
    /// Whether the ledger holds the whole block.
    pub is_full: bool,
}

/// The block of the candidate at `at`, and none where the list is too short.
pub open spec fn block_at(blocks: Seq<Option<BlockMeta>>, at: int) -> Option<BlockMeta> {
    if 0 <= at < blocks.len() {
        blocks[at]
    } else {
        None
    }
}

/// Whether more stake stands behind `slot` than behind `parent`, where the
/// stake of both is known.
pub open spec fn stake_exceeds_parent(stakes: Map<Slot, u64>, slot: Slot, parent: Slot) -> bool {
    stakes.contains_key(slot) && stakes.contains_key(parent) && stakes[slot] > stakes[parent]
}

/// Checks one candidate: the ledger must hold its block, the block must be
/// linked to the expected parent, no more stake may stand behind it than
/// behind that parent, where `stakes` knows the stake of both, and the block
/// must be full. The first of these that fails is reported. A candidate that
/// passes is the parent expected of the next.
pub open spec fn link_checked(
    slot: Slot,
    block: Option<BlockMeta>,
    expected_parent: Slot,
    stakes: Map<Slot, u64>,
) -> Result<Slot, WenRestartErrorView> {
    match block {
        None => Err(WenRestartErrorView::BlockNotFound(slot)),
        Some(meta) => if meta.parent_slot != Some(expected_parent) {
            Err(
                WenRestartErrorView::BlockNotLinkedToExpectedParent(
                    slot,
                    meta.parent_slot,
                    expected_parent,
                ),
            )
        } else if stake_exceeds_parent(stakes, slot, expected_parent) {
            Err(
                WenRestartErrorView::ChildStakeLargerThanParent(
                    slot,
                    stakes[slot],
                    expected_parent,
                    stakes[expected_parent],
                ),
            )
        } else if !meta.is_full {
            Err(WenRestartErrorView::BlockNotFull(slot))
        } else {
            Ok(slot)
        },
    }
}

/// Checks the first `n` candidates in order, the first against the root and
/// each other one against the candidate before it: the last of them, or the
/// root where `n` is 0, or the first failure.
pub open spec fn chain_checked(
    candidates: Seq<Slot>,
    blocks: Seq<Option<BlockMeta>>,
    stakes: Map<Slot, u64>,
    root_slot: Slot,
    n: int,
) -> Result<Slot, WenRestartErrorView>
    decreases n,
{
    if n <= 0 {
        Ok(root_slot)
    } else {
        match chain_checked(candidates, blocks, stakes, root_slot, n - 1) {
            Ok(expected_parent) => link_checked(
                candidates[n - 1],
                block_at(blocks, n - 1),
                expected_parent,
                stakes,
            ),
            Err(e) => Err(e),
        }
    }
}

/// Checks one candidate against the parent expected of it.
pub fn check_link(
    slot: Slot,
    block: Option<BlockMeta>,
    expected_parent: Slot,
    stakes: &HashMap<Slot, u64>,
) -> (r: Result<Slot, WenRestartError>)
    ensures
        match r {
            Ok(next) => link_checked(slot, block, expected_parent, stakes@) == Ok::<
                Slot,
                WenRestartErrorView,
            >(next),
            Err(e) => link_checked(slot, block, expected_parent, stakes@) == Err::<
                Slot,
                WenRestartErrorView,
            >(e@),
        },
{
    broadcast use vstd::std_specs::hash::group_hash_axioms;

    match block {
        Some(block_meta) => {
            let linked = match block_meta.parent_slot {
                Some(parent) => parent == expected_parent,
                None => false,
            };
            if !linked {
                return Err(
                    WenRestartError::BlockNotLinkedToExpectedParent(
                        slot,
                        block_meta.parent_slot,
                        expected_parent,
                    ),
                );
            }
            match (stakes.get(&slot), stakes.get(&expected_parent)) {
                (Some(stake), Some(parent_stake)) => {
                    if *stake > *parent_stake {
                        return Err(
                            WenRestartError::ChildStakeLargerThanParent(
                                slot,
                                *stake,
                                expected_parent,
                                *parent_stake,
                            ),
                        );
                    }
                },
                _ => {},
            }
            if !block_meta.is_full {
                return Err(WenRestartError::BlockNotFull(slot));
            }
            Ok(slot)
        },
        None => Err(WenRestartError::BlockNotFound(slot)),
    }
}

/// Walks the candidates: checks that they form one chain of full blocks from
/// the root along which the stake never grows, and returns the last of them,
/// or the root where there is no candidate. `blocks` holds, in the order of
/// the candidates, what the ledger says of the block of each, `None` where it
/// holds no such block; `stakes` holds the stake that stands behind each slot.
/// Where the validator is about to exit, nothing is checked.
pub fn check_chain(
    candidates: &Vec<Slot>,
    blocks: &Vec<Option<BlockMeta>>,
    stakes: &HashMap<Slot, u64>,
    root_slot: Slot,
    exit: bool,
) -> (r: Result<Slot, WenRestartError>)
    ensures
        match r {
            Ok(slot) => (!exit || candidates@.len() == 0) && chain_checked(
                candidates@,
                blocks@,
                stakes@,
                root_slot,
                candidates@.len() as int,
            ) == Ok::<Slot, WenRestartErrorView>(slot),
            Err(e) => if exit && candidates@.len() > 0 {
                e@ == WenRestartErrorView::Exiting
            } else {
                chain_checked(
                    candidates@,
                    blocks@,
                    stakes@,
                    root_slot,
                    candidates@.len() as int,
                ) == Err::<Slot, WenRestartErrorView>(e@)
            },
        },
{
    let mut expected_parent = root_slot;
    let mut i: usize = 0;
    while i < candidates.len()
        invariant
            i <= candidates@.len(),
            i > 0 ==> !exit,
            chain_checked(candidates@, blocks@, stakes@, root_slot, i as int) == Ok::<
                Slot,
                WenRestartErrorView,
            >(expected_parent),
        decreases candidates@.len() - i,
    {
        if exit {
            return Err(WenRestartError::Exiting);
        }
        let block = if i < blocks.len() {
            blocks[i]
        } else {
            None
        };
        match check_link(candidates[i], block, expected_parent, stakes) {
            Ok(next) => {
                expected_parent = next;
            },
            Err(e) => {
                proof {
                    lemma_chain_failure_stays(
                        candidates@,
                        blocks@,
                        stakes@,
                        root_slot,
                        i + 1,
                        candidates@.len() as int,
                    );
                }
                return Err(e);
            },
        }
        i += 1;
    }
    Ok(expected_parent)
}

/// The slot that the candidate at `at` is checked against: the candidate
/// before it, and the root for the first candidate.
pub open spec fn parent_expected(candidates: Seq<Slot>, root_slot: Slot, at: int) -> Slot {
    if at <= 0 {
        root_slot
    } else {
        candidates[at - 1]
    }
}

/// Once the check of the chain has failed, it has failed for good: checking
/// more candidates gives the same failure.
pub proof fn lemma_chain_failure_stays(
    candidates: Seq<Slot>,
    blocks: Seq<Option<BlockMeta>>,
    stakes: Map<Slot, u64>,
    root_slot: Slot,
    n: int,
    m: int,
)
    requires
        0 <= n <= m,
        chain_checked(candidates, blocks, stakes, root_slot, n) is Err,
    ensures
        chain_checked(candidates, blocks, stakes, root_slot, m) == chain_checked(
            candidates,
            blocks,
            stakes,
            root_slot,
            n,
        ),
    decreases m - n,
{
    if n < m {
        lemma_chain_failure_stays(candidates, blocks, stakes, root_slot, n, m - 1);
    }
}

/// A chain that passes the check has passed it at every candidate: the check
/// of the first `n` candidates ends in the last of them, or in the root where
/// `n` is 0.
pub proof fn lemma_chain_passes_throughout(
    candidates: Seq<Slot>,
    blocks: Seq<Option<BlockMeta>>,
    stakes: Map<Slot, u64>,
    root_slot: Slot,
    n: int,
    m: int,
)
    requires
        0 <= n <= m,
        chain_checked(candidates, blocks, stakes, root_slot, m) is Ok,
    ensures
        chain_checked(candidates, blocks, stakes, root_slot, n) == Ok::<Slot, WenRestartErrorView>(
            if n == 0 {
                root_slot
            } else {
                candidates[n - 1]
            },
        ),
{
    if chain_checked(candidates, blocks, stakes, root_slot, n) is Err {
        lemma_chain_failure_stays(candidates, blocks, stakes, root_slot, n, m);
    }
}

/// The slot that a chain of candidates that passes the check ends in is the
/// last candidate, or the root where there is none.
pub proof fn lemma_heaviest_fork_is_last(
    candidates: Seq<Slot>,
    blocks: Seq<Option<BlockMeta>>,
    stakes: Map<Slot, u64>,
    root_slot: Slot,
)
    ensures
        chain_checked(candidates, blocks, stakes, root_slot, candidates.len() as int) matches Ok(
            slot,
        ) ==> slot == if candidates.len() == 0 {
            root_slot
        } else {
            candidates.last()
        },
{
    if chain_checked(candidates, blocks, stakes, root_slot, candidates.len() as int) is Ok {
        lemma_chain_passes_throughout(
            candidates,
            blocks,
            stakes,
            root_slot,
            candidates.len() as int,
            candidates.len() as int,
        );
    }
}

/// No backward stakes on the fork that passes the check: the parent that
/// the ledger names for a candidate is the candidate before it, or the root
/// for the first candidate, and no more stake stands behind the candidate than
/// behind that parent, where the stake of both is known.
pub proof fn lemma_no_backward_stakes_on_fork(
    candidates: Seq<Slot>,
    blocks: Seq<Option<BlockMeta>>,
    stakes: Map<Slot, u64>,
    root_slot: Slot,
    at: int,
)
    requires
        0 <= at < candidates.len(),
        chain_checked(candidates, blocks, stakes, root_slot, candidates.len() as int) is Ok,
    ensures
        block_at(blocks, at) matches Some(meta) && meta.is_full && meta.parent_slot == Some(
            parent_expected(candidates, root_slot, at),
        ),
        stakes.contains_key(candidates[at]) && stakes.contains_key(
            parent_expected(candidates, root_slot, at),
        ) ==> stakes[candidates[at]] <= stakes[parent_expected(candidates, root_slot, at)],
{
    lemma_chain_passes_throughout(
        candidates,
        blocks,
        stakes,
        root_slot,
        at,
        candidates.len() as int,
    );
    lemma_chain_passes_throughout(
        candidates,
        blocks,
        stakes,
        root_slot,
        at + 1,
        candidates.len() as int,
    );
}

/// A candidate behind which more stake stands than behind its parent in the
/// ledger fails the whole check, where the chain is sound up to it: the
/// failure names the candidate, its stake, the parent and the stake of the
/// parent.
pub proof fn lemma_child_stake_larger(
    candidates: Seq<Slot>,
    blocks: Seq<Option<BlockMeta>>,
    stakes: Map<Slot, u64>,
    root_slot: Slot,
    at: int,
)
    requires
        0 <= at < candidates.len(),
        chain_checked(candidates, blocks, stakes, root_slot, at) is Ok,
        block_at(blocks, at) matches Some(meta) && meta.parent_slot == Some(
            parent_expected(candidates, root_slot, at),
        ),
        stake_exceeds_parent(
            stakes,
            candidates[at],
            parent_expected(candidates, root_slot, at),
        ),
    ensures
        chain_checked(candidates, blocks, stakes, root_slot, candidates.len() as int) == Err::<
            Slot,
            WenRestartErrorView,
        >(
            WenRestartErrorView::ChildStakeLargerThanParent(
                candidates[at],
                stakes[candidates[at]],
                parent_expected(candidates, root_slot, at),
                stakes[parent_expected(candidates, root_slot, at)],
            ),
        ),
{
    lemma_chain_passes_throughout(candidates, blocks, stakes, root_slot, at, at);
    lemma_chain_failure_stays(
        candidates,
        blocks,
        stakes,
        root_slot,
        at + 1,
        candidates.len() as int,
    );
}

/// A candidate whose block is linked to another slot than the candidate
/// before it (the root, for the first candidate) fails the whole check, with
/// the candidate, the parent that the ledger names and the one expected.
pub proof fn lemma_unlinked_candidate(
    candidates: Seq<Slot>,
    blocks: Seq<Option<BlockMeta>>,
    stakes: Map<Slot, u64>,
    root_slot: Slot,
    at: int,
)
    requires
        0 <= at < candidates.len(),
        chain_checked(candidates, blocks, stakes, root_slot, at) is Ok,
        block_at(blocks, at) matches Some(meta) && meta.parent_slot != Some(
            parent_expected(candidates, root_slot, at),
        ),
    ensures
        chain_checked(candidates, blocks, stakes, root_slot, candidates.len() as int) == Err::<
            Slot,
            WenRestartErrorView,
        >(
            WenRestartErrorView::BlockNotLinkedToExpectedParent(
                candidates[at],
                block_at(blocks, at).unwrap().parent_slot,
                parent_expected(candidates, root_slot, at),
            ),
        ),
{
    lemma_chain_passes_throughout(candidates, blocks, stakes, root_slot, at, at);
    lemma_chain_failure_stays(
        candidates,
        blocks,
        stakes,
        root_slot,
        at + 1,
        candidates.len() as int,
    );
}

/// What the caller reports while the heaviest fork is looked for.
#[derive(Debug, PartialEq, Eq)]
pub enum ForkEvent {
    /// Nothing has been done yet.
    Begin,
    /// What the ledger says of the block of each slot that was asked about,
    /// in their order, `None` where it holds no such block.
    Blocks(Vec<Option<BlockMeta>>),
}

/// What the caller has to do next while the heaviest fork is looked for.
#[derive(Debug, PartialEq, Eq)]
pub enum ForkAction {
    /// Read the blocks of these slots from the ledger, and report `Blocks`.
    ReadBlocks(Vec<Slot>),
    /// The heaviest fork ends in `heaviest_fork_slot`; `slots` are the slots
    /// of the fork after the root, in ascending order.
    Found { heaviest_fork_slot: Slot, slots: Vec<Slot> },
}

/// Whether `r` is what a step of the search for the heaviest fork comes to.
/// The candidates are the slots after the root behind which enough stake
/// stands, in ascending order. The first step asks for their blocks. The
/// step after it walks them: they must form one chain of full blocks from the
/// root along which the stake never grows, and the heaviest fork ends in the
/// last of them, or in the root where there is none. A validator that is
/// about to exit does not walk.
pub open spec fn heaviest_fork_found(
    r: Result<ForkAction, WenRestartError>,
    result: LastVotedForkSlotsFinalResultView,
    bank: RootBank,
    event: ForkEvent,
    exit: bool,
) -> bool {
    let candidates = candidate_list(result, bank);
    match event {
        ForkEvent::Begin => r matches Ok(ForkAction::ReadBlocks(slots)) && slots@ == candidates,
        ForkEvent::Blocks(blocks) => if exit && candidates.len() > 0 {
            r matches Err(e) && e@ == WenRestartErrorView::Exiting
        } else {
            match chain_checked(
                candidates,
                blocks@,
                result.slots_stake_map,
                bank.slot,
                candidates.len() as int,
            ) {
                Ok(last) => {
                    &&& r matches Ok(ForkAction::Found { heaviest_fork_slot, slots })
                    &&& heaviest_fork_slot == last
                    &&& slots@ == candidates
                },
                Err(failure) => r matches Err(e) && e@ == failure,
            }
        },
    }
}

/// Finds the heaviest fork of what the first phase has ended with, step by
/// step: takes what the caller reports of the ledger, and says what to do
/// next or how the search has ended. It begins with the report `Begin`.
pub fn find_heaviest_fork(
    aggregate_final_result: &LastVotedForkSlotsFinalResult,
    root_bank: &RootBank,
    event: ForkEvent,
    exit: bool,
) -> (r: Result<ForkAction, WenRestartError>)
    ensures
        heaviest_fork_found(r, aggregate_final_result@, *root_bank, event, exit),
{
    let slots = heaviest_fork_candidates(aggregate_final_result, root_bank);
    match event {
        ForkEvent::Begin => Ok(ForkAction::ReadBlocks(slots)),
        ForkEvent::Blocks(blocks) => {
            match check_chain(
                &slots,
                &blocks,
                &aggregate_final_result.slots_stake_map,
                root_bank.slot,
                exit,
            ) {
                Ok(heaviest_fork_slot) => Ok(ForkAction::Found { heaviest_fork_slot, slots }),
                Err(e) => Err(e),
            }
        },
    }
}

/// A lone candidate that is not linked to the root: where the only slot
/// behind which enough stake stands has a block whose parent is not the root,
/// the search fails with that slot, the parent that the ledger names and the
/// root.
pub proof fn lemma_lone_candidate_unlinked(
    r: Result<ForkAction, WenRestartError>,
    result: LastVotedForkSlotsFinalResultView,
    bank: RootBank,
    blocks: Vec<Option<BlockMeta>>,
    slot: Slot,
    meta: BlockMeta,
)
    requires
        heaviest_fork_found(r, result, bank, ForkEvent::Blocks(blocks), false),
        forall|other: Slot| is_candidate(result, bank, other) <==> other == slot,
        blocks@.len() > 0 && blocks@[0] == Some(meta),
        meta.parent_slot != Some(bank.slot),
    ensures
        r matches Err(e) && e@ == WenRestartErrorView::BlockNotLinkedToExpectedParent(
            slot,
            meta.parent_slot,
            bank.slot,
        ),
{
    let lone = seq![slot];
    assert forall|other: Slot| lone.contains(other) <==> is_candidate(result, bank, other) by {
        if other == slot {
            assert(lone[0] == slot);
        }
    }
    assert(is_candidate_list(lone, result, bank));
    lemma_ascending_is_unique(lone, candidate_list(result, bank));
    lemma_unlinked_candidate(lone, blocks@, result.slots_stake_map, bank.slot, 0);
}

/// Where the replay of the heaviest fork stands.
#[derive(Clone, Copy, Debug, PartialEq, Eq, Structural)]
pub struct ReplayProgress {
    /// How many of the slots of the fork have a frozen bank by now.
    pub frozen: usize,
    /// The slot of the last bank that was frozen, the root to begin with: the
    /// parent of the next bank.
    pub parent_slot: Slot,
}

/// A bank that the bank forks hold: the hash that it has now, and whether it
/// is frozen. Only the hash of a frozen bank is the bank hash of its slot.
#[derive(Clone, Copy, Debug, PartialEq, Eq)]
pub struct BankAtSlot {
    pub hash: crate::hash::Hash,
    pub frozen: bool,
}

/// Whether the bank forks hold a frozen bank of the heaviest slot, whose hash
/// then ends the search before any replay.
pub open spec fn frozen_bank_known(bank: Option<BankAtSlot>) -> bool {
    bank is Some && bank.unwrap().frozen
}

/// What the caller reports of the banks while the heaviest fork is replayed.
#[derive(Debug, PartialEq, Eq)]
pub enum ReplayEvent {
    /// The bank that the bank forks hold of the heaviest slot, `None` where
    /// they hold no bank of that slot. This begins the replay.
    HeaviestBank(Option<BankAtSlot>),
    /// The bank of the slot in turn is at hand, frozen or not.
    BankReady { frozen: bool },
    /// The block of the slot in turn was replayed: `None` where its bank is
    /// now frozen, or the reason why the replay failed.
    Replayed(Option<String>),
}

/// What the caller has to do next while the heaviest fork is replayed.
#[derive(Clone, Copy, Debug, PartialEq, Eq)]
pub enum ReplayAction {
    /// Take the bank of `slot` from the bank forks, or make one on top of the
    /// bank at `parent_slot` where they hold none, and report `BankReady`.
    PrepareBank { slot: Slot, parent_slot: Slot },
    /// Replay the block of `slot` into its bank, and report `Replayed`.
    ReplayBlock { slot: Slot },
    /// The replay is over: the bank hash of the heaviest fork is that of the
    /// bank at `slot`.
    HashOfBank { slot: Slot },
    /// The replay is over: this is the bank hash of the heaviest fork.
    Hash(crate::hash::Hash),
}

/// What is next once the banks of the first `progress.frozen` slots are
/// frozen: the hash of the last bank when no slot is left, and otherwise the
/// bank of the next slot, unless the validator is about to exit.
pub open spec fn next_replay(slots: Seq<Slot>, progress: ReplayProgress, exit: bool) -> Result<
    (ReplayProgress, ReplayAction),
    WenRestartErrorView,
> {
    if progress.frozen >= slots.len() {
        Ok((progress, ReplayAction::HashOfBank { slot: progress.parent_slot }))
    } else if exit {
        Err(WenRestartErrorView::Exiting)
    } else {
        Ok(
            (
                progress,
                ReplayAction::PrepareBank {
                    slot: slots[progress.frozen as int],
                    parent_slot: progress.parent_slot,
                },
            ),
        )
    }
}

/// The progress once the bank of the slot in turn is frozen.
pub open spec fn with_frozen_bank(slots: Seq<Slot>, progress: ReplayProgress) -> ReplayProgress {
    if progress.frozen < slots.len() {
        ReplayProgress {
            frozen: (progress.frozen + 1) as usize,
            parent_slot: slots[progress.frozen as int],
        }
    } else {
        progress
    }
}

/// One step of finding the bank hash of the heaviest fork by replay. The
/// slots are replayed in their order, each on top of the one before it and
/// the first on top of the root. Where the bank forks hold a frozen bank of
/// the heaviest slot, its hash is the result and nothing is replayed; a bank
/// of that slot that is not frozen has no hash to take. A bank that the bank
/// forks hold frozen is not replayed again. The first replay that fails ends
/// the search.
pub open spec fn replay_step(
    slots: Seq<Slot>,
    root_slot: Slot,
    progress: ReplayProgress,
    event: ReplayEvent,
    exit: bool,
) -> Result<(ReplayProgress, ReplayAction), WenRestartErrorView> {
    match event {
        ReplayEvent::HeaviestBank(bank) => if frozen_bank_known(bank) {
            Ok((progress, ReplayAction::Hash(bank.unwrap().hash)))
        } else {
            next_replay(slots, ReplayProgress { frozen: 0, parent_slot: root_slot }, exit)
        },
        ReplayEvent::BankReady { frozen } => if frozen || progress.frozen >= slots.len() {
            next_replay(slots, with_frozen_bank(slots, progress), exit)
        } else {
            Ok((progress, ReplayAction::ReplayBlock { slot: slots[progress.frozen as int] }))
        },
        ReplayEvent::Replayed(failure) => match failure {
            Some(why) => if progress.frozen < slots.len() {
                Err(
                    WenRestartErrorView::BlockNotFrozenAfterReplay(
                        slots[progress.frozen as int],
                        Some(why@),
                    ),
                )
            } else {
                next_replay(slots, progress, exit)
            },
            None => next_replay(slots, with_frozen_bank(slots, progress), exit),
        },
    }
}

/// What is next once the banks of the first `progress.frozen` slots are
/// frozen.
fn next_replay_action(slots: &Vec<Slot>, progress: ReplayProgress, exit: bool) -> (r: Result<
    (ReplayProgress, ReplayAction),
    WenRestartError,
>)
    ensures
        match r {
            Ok(next) => next_replay(slots@, progress, exit) == Ok::<
                (ReplayProgress, ReplayAction),
                WenRestartErrorView,
            >(next),
            Err(e) => next_replay(slots@, progress, exit) == Err::<
                (ReplayProgress, ReplayAction),
                WenRestartErrorView,
            >(e@),
        },
{
    if progress.frozen >= slots.len() {
        Ok((progress, ReplayAction::HashOfBank { slot: progress.parent_slot }))
    } else if exit {
        Err(WenRestartError::Exiting)
    } else {
        Ok(
            (
                progress,
                ReplayAction::PrepareBank {
                    slot: slots[progress.frozen],
                    parent_slot: progress.parent_slot,
                },
            ),
        )
    }
}

/// The progress once the bank of the slot in turn is frozen.
fn frozen_bank(slots: &Vec<Slot>, progress: ReplayProgress) -> (next: ReplayProgress)
    ensures
        next == with_frozen_bank(slots@, progress),
{
    if progress.frozen < slots.len() {
        ReplayProgress { frozen: progress.frozen + 1, parent_slot: slots[progress.frozen] }
    } else {
        progress
    }
}

/// Finds the bank hash of the heaviest fork, step by step: takes what the
/// caller reports of the banks, and says what to do next or how the search
/// has ended. The search begins with the report `HeaviestBank`; `progress`
/// is what the step before returned.
pub fn find_bankhash_of_heaviest_fork(
    slots: &Vec<Slot>,
    root_slot: Slot,
    progress: ReplayProgress,
    event: ReplayEvent,
    exit: bool,
) -> (r: Result<(ReplayProgress, ReplayAction), WenRestartError>)
    ensures
        match r {
            Ok(next) => replay_step(slots@, root_slot, progress, event, exit) == Ok::<
                (ReplayProgress, ReplayAction),
                WenRestartErrorView,
            >(next),
            Err(e) => replay_step(slots@, root_slot, progress, event, exit) == Err::<
                (ReplayProgress, ReplayAction),
                WenRestartErrorView,
            >(e@),
        },
{
    match event {
        ReplayEvent::HeaviestBank(bank) => {
            match bank {
                Some(known) if known.frozen => Ok((progress, ReplayAction::Hash(known.hash))),
                _ => next_replay_action(
                    slots,
                    ReplayProgress { frozen: 0, parent_slot: root_slot },
                    exit,
                ),
            }
        },
        ReplayEvent::BankReady { frozen } => {
            if frozen || progress.frozen >= slots.len() {
                next_replay_action(slots, frozen_bank(slots, progress), exit)
            } else {
                Ok((progress, ReplayAction::ReplayBlock { slot: slots[progress.frozen] }))
            }
        },
        ReplayEvent::Replayed(failure) => match failure {
            Some(why) => {
                if progress.frozen < slots.len() {
                    Err(
                        WenRestartError::BlockNotFrozenAfterReplay(
                            slots[progress.frozen],
                            Some(why),
                        ),
                    )
                } else {
                    next_replay_action(slots, progress, exit)
                }
            },
            None => next_replay_action(slots, frozen_bank(slots, progress), exit),
        },
    }
}

} // verus!
