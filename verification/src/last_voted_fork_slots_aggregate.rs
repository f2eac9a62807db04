//! The stake that stands behind each slot of the forks that the validators
//! last voted on.

use crate::progress::{
    LastVotedForkSlotsAggregateFinal, LastVotedForkSlotsEpochInfoRecord, LastVotedForkSlotsRecord,
    LastVotedForkSlotsRecordView,
};
use crate::pubkey::{pubkey_from_base58, Pubkey, PubkeyParseError};
use crate::root_bank::{first_wanted, lemma_first_wanted, lemma_none_wanted, RootBank};
use solana_clock::{Epoch, Slot};
use std::collections::{BTreeSet, HashMap};
use vstd::prelude::*;
use vstd::std_specs::iter::IteratorSpec;

verus! {

/// The stake of one epoch, and how much of it has been heard from.
#[derive(Clone, Copy, Debug, PartialEq, Eq, Structural)]
pub struct LastVotedForkSlotsEpochInfo {
    pub epoch: Epoch,
    pub total_stake: u64,
    /// The stake of the validators heard from, whether or not they voted for
    /// a slot of this epoch.
    pub actively_voting_stake: u64,
    /// The stake of the validators heard from that voted for a slot of this
    /// epoch.
    pub actively_voting_for_this_epoch_stake: u64,
}

impl LastVotedForkSlotsEpochInfo {
    /// The form in which the figures are written to the record on disk.
    pub open spec fn to_record(self) -> LastVotedForkSlotsEpochInfoRecord {
        LastVotedForkSlotsEpochInfoRecord {
            epoch: self.epoch,
            total_stake: self.total_stake,
            actively_voting_stake: self.actively_voting_stake,
            actively_voting_for_this_epoch_stake: self.actively_voting_for_this_epoch_stake,
        }
    }

    /// The figures that a record on disk holds.
    pub open spec fn of_record(record: LastVotedForkSlotsEpochInfoRecord) -> Self {
        LastVotedForkSlotsEpochInfo {
            epoch: record.epoch,
            total_stake: record.total_stake,
            actively_voting_stake: record.actively_voting_stake,
            actively_voting_for_this_epoch_stake: record.actively_voting_for_this_epoch_stake,
        }
    }
}

/// What the first phase ends with: the stake behind each slot, and the stake
/// of each epoch.
#[derive(Debug, PartialEq, Eq)]
pub struct LastVotedForkSlotsFinalResult {
    pub slots_stake_map: HashMap<Slot, u64>,
    pub epoch_info_vec: Vec<LastVotedForkSlotsEpochInfo>,
}

/// What a `LastVotedForkSlotsFinalResult` holds, as mathematical values: contracts speak of it.
pub struct LastVotedForkSlotsFinalResultView {
    pub slots_stake_map: Map<Slot, u64>,
    pub epoch_info_vec: Seq<LastVotedForkSlotsEpochInfo>,
}

impl View for LastVotedForkSlotsFinalResult {
    type V = LastVotedForkSlotsFinalResultView;

    open spec fn view(&self) -> Self::V {
        LastVotedForkSlotsFinalResultView {
            slots_stake_map: self.slots_stake_map@,
            epoch_info_vec: self.epoch_info_vec@,
        }
    }
}

impl LastVotedForkSlotsFinalResultView {
    /// The form in which the result is written to the record on disk.
    pub open spec fn to_record(self) -> crate::progress::LastVotedForkSlotsAggregateFinalView {
        crate::progress::LastVotedForkSlotsAggregateFinalView {
            slots_stake_map: self.slots_stake_map,
            epoch_infos: self.epoch_info_vec.map_values(
                |info: LastVotedForkSlotsEpochInfo| info.to_record(),
            ),
        }
    }

    /// The result that a record on disk holds.
    pub open spec fn of_record(
        record: crate::progress::LastVotedForkSlotsAggregateFinalView,
    ) -> Self {
        LastVotedForkSlotsFinalResultView {
            slots_stake_map: record.slots_stake_map,
            epoch_info_vec: record.epoch_infos.map_values(
                |info: LastVotedForkSlotsEpochInfoRecord| LastVotedForkSlotsEpochInfo::of_record(info),
            ),
        }
    }
}

impl Clone for LastVotedForkSlotsFinalResult {
    fn clone(&self) -> (copy: Self)
        ensures
            copy@ == self@,
    {
        LastVotedForkSlotsFinalResult {
            slots_stake_map: self.slots_stake_map.clone(),
            epoch_info_vec: self.epoch_info_vec.clone(),
        }
    }
}

impl LastVotedForkSlotsFinalResult {
    /// Writes the result in the form of the record on disk.
    pub fn to_record(&self) -> (record: LastVotedForkSlotsAggregateFinal)
        ensures
            record@ == self@.to_record(),
    {
        let mut epoch_infos: Vec<LastVotedForkSlotsEpochInfoRecord> = Vec::new();
        let mut i: usize = 0;
        while i < self.epoch_info_vec.len()
            invariant
                i <= self.epoch_info_vec@.len(),
                epoch_infos@.len() == i,
                forall|j: int| 0 <= j < i ==> epoch_infos@[j] == self.epoch_info_vec@[j].to_record(),
            decreases self.epoch_info_vec@.len() - i,
        {
            let info = &self.epoch_info_vec[i];
            epoch_infos.push(
                LastVotedForkSlotsEpochInfoRecord {
                    epoch: info.epoch,
                    total_stake: info.total_stake,
                    actively_voting_stake: info.actively_voting_stake,
                    actively_voting_for_this_epoch_stake: info.actively_voting_for_this_epoch_stake,
                },
            );
            i += 1;
        }
        assert(epoch_infos@ =~= self@.to_record().epoch_infos);
        LastVotedForkSlotsAggregateFinal { slots_stake_map: self.slots_stake_map.clone(), epoch_infos }
    }

    /// Reads the result from the form of the record on disk.
    pub fn of_record(record: &LastVotedForkSlotsAggregateFinal) -> (result: Self)
        ensures
            result@ == LastVotedForkSlotsFinalResultView::of_record(record@),
    {
        let mut epoch_info_vec: Vec<LastVotedForkSlotsEpochInfo> = Vec::new();
        let mut i: usize = 0;
        while i < record.epoch_infos.len()
            invariant
                i <= record.epoch_infos@.len(),
                epoch_info_vec@.len() == i,
                forall|j: int|
                    0 <= j < i ==> epoch_info_vec@[j] == LastVotedForkSlotsEpochInfo::of_record(
                        record.epoch_infos@[j],
                    ),
            decreases record.epoch_infos@.len() - i,
        {
            let info = &record.epoch_infos[i];
            epoch_info_vec.push(
                LastVotedForkSlotsEpochInfo {
                    epoch: info.epoch,
                    total_stake: info.total_stake,
                    actively_voting_stake: info.actively_voting_stake,
                    actively_voting_for_this_epoch_stake: info.actively_voting_for_this_epoch_stake,
                },
            );
            i += 1;
        }
        assert(epoch_info_vec@ =~= LastVotedForkSlotsFinalResultView::of_record(
            record@,
        ).epoch_info_vec);
        LastVotedForkSlotsFinalResult {
            slots_stake_map: record.slots_stake_map.clone(),
            epoch_info_vec,
        }
    }
}

/// Writing a result to the record and reading it back gives the result.
pub proof fn lemma_final_result_reads_back(result: LastVotedForkSlotsFinalResultView)
    ensures
        LastVotedForkSlotsFinalResultView::of_record(result.to_record()) == result,
{
    let back = LastVotedForkSlotsFinalResultView::of_record(result.to_record());
    assert(back.epoch_info_vec =~= result.epoch_info_vec);
}

/// Of the whole stake of an epoch, the share in percent that has to stand
/// behind a slot before the slot is worth repairing.
pub const REPAIR_THRESHOLD_PERCENT: u64 = 42;

/// The sum of two stakes, held at the largest value where it would pass it.
pub open spec fn saturating_sum(a: u64, b: u64) -> u64 {
    if a + b > u64::MAX {
        u64::MAX
    } else {
        (a + b) as u64
    }
}

/// The stake that has to stand behind a slot before the slot is worth
/// repairing, in an epoch with the whole stake `total_stake`.
pub open spec fn repair_threshold_stake(total_stake: u64) -> u64 {
    (total_stake * REPAIR_THRESHOLD_PERCENT / 100) as u64
}

/// The fork that a validator last voted on, as it arrives by gossip: the
/// slots are those from the root of the receiver on, in ascending order.
#[derive(Debug, PartialEq, Eq)]
pub struct RestartLastVotedForkSlots {
    pub from: Pubkey,
    pub wallclock: u64,
    pub last_voted_fork_slots: Vec<Slot>,
    pub last_voted_slot: Slot,
    pub last_voted_hash: crate::hash::Hash,
    pub shred_version: u16,
}

/// What a `RestartLastVotedForkSlots` holds, as mathematical values: contracts speak of it.
pub struct RestartLastVotedForkSlotsView {
    pub from: Pubkey,
    pub wallclock: u64,
    pub last_voted_fork_slots: Seq<Slot>,
    pub last_voted_slot: Slot,
    pub last_voted_hash: crate::hash::Hash,
    pub shred_version: u16,
}

impl View for RestartLastVotedForkSlots {
    type V = RestartLastVotedForkSlotsView;

    open spec fn view(&self) -> Self::V {
        RestartLastVotedForkSlotsView {
            from: self.from,
            wallclock: self.wallclock,
            last_voted_fork_slots: self.last_voted_fork_slots@,
            last_voted_slot: self.last_voted_slot,
            last_voted_hash: self.last_voted_hash,
            shred_version: self.shred_version,
        }
    }
}

impl Clone for RestartLastVotedForkSlots {
    fn clone(&self) -> (copy: Self)
        ensures
            copy@ == self@,
    {
        RestartLastVotedForkSlots {
            from: self.from,
            wallclock: self.wallclock,
            last_voted_fork_slots: self.last_voted_fork_slots.clone(),
            last_voted_slot: self.last_voted_slot,
            last_voted_hash: self.last_voted_hash,
            shred_version: self.shred_version,
        }
    }
}

impl RestartLastVotedForkSlotsView {
    /// The record that is kept of the message.
    pub open spec fn to_record(self) -> LastVotedForkSlotsRecordView {
        LastVotedForkSlotsRecordView {
            last_voted_fork_slots: self.last_voted_fork_slots,
            last_vote_bankhash: self.last_voted_hash.text(),
            shred_version: self.shred_version as u32,
            wallclock: self.wallclock,
        }
    }
}

/// Whether two lists of slots hold the same slots in the same order.
pub fn same_slots(a: &Vec<Slot>, b: &Vec<Slot>) -> (same: bool)
    ensures
        same == (a@ == b@),
{
    if a.len() != b.len() {
        return false;
    }
    let mut i: usize = 0;
    while i < a.len()
        invariant
            i <= a@.len(),
            a@.len() == b@.len(),
            forall|j: int| 0 <= j < i ==> a@[j] == b@[j],
        decreases a@.len() - i,
    {
        if a[i] != b[i] {
            return false;
        }
        i += 1;
    }
    assert(a@ =~= b@);
    true
}

impl RestartLastVotedForkSlots {
    /// Whether two messages hold the same values.
    pub fn same(&self, other: &Self) -> (same: bool)
        ensures
            same == (self@ == other@),
    {
        self.from == other.from && self.wallclock == other.wallclock && self.last_voted_slot
            == other.last_voted_slot && self.last_voted_hash == other.last_voted_hash
            && self.shred_version == other.shred_version && same_slots(
            &self.last_voted_fork_slots,
            &other.last_voted_fork_slots,
        )
    }

    /// The record that is kept of the message.
    pub fn to_record(&self) -> (record: LastVotedForkSlotsRecord)
        ensures
            record@ == self@.to_record(),
    {
        LastVotedForkSlotsRecord {
            last_voted_fork_slots: self.last_voted_fork_slots.clone(),
            last_vote_bankhash: self.last_voted_hash.to_string(),
            shred_version: self.shred_version as u32,
            wallclock: self.wallclock,
        }
    }
}

/// What became of a message that was handed to the aggregate.
#[derive(Debug, PartialEq)]
pub enum LastVotedForkSlotsAggregateResult {
    /// The message is the one that the aggregate holds of this validator, or
    /// it is from the validator that runs the aggregate.
    AlreadyExists,
    /// The aggregate holds another message of this validator (first); the new
    /// one (second) was not taken in.
    DifferentVersionExists(RestartLastVotedForkSlots, RestartLastVotedForkSlots),
    /// The message was taken in; this is the record of it.
    Inserted(LastVotedForkSlotsRecord),
}

/// The stake behind each slot, and the slots worth repairing.
pub struct SlotStakes {
    pub slots_stake_map: Map<Slot, u64>,
    pub slots_to_repair: Set<Slot>,
}

/// The stake behind each slot after `stake` more stands behind `slot`.
pub open spec fn stake_added(map: Map<Slot, u64>, slot: Slot, stake: u64) -> Map<Slot, u64> {
    map.insert(
        slot,
        saturating_sum(
            if map.contains_key(slot) {
                map[slot]
            } else {
                0
            },
            stake,
        ),
    )
}

/// The stakes after the validator `from` has been counted for `slot`: its
/// stake in the epoch of the slot stands behind the slot, and the slot is
/// worth repairing once the stake behind it reaches the repair threshold of
/// that epoch. A validator without stake in that epoch changes nothing, nor
/// does a slot that the schedule gives no epoch.
pub open spec fn with_slot(
    bank: RootBank,
    from: Pubkey,
    stakes: SlotStakes,
    slot: Slot,
) -> SlotStakes {
    match bank.slot_stake(slot, from) {
        Some(stake) => {
            let slots_stake_map = stake_added(stakes.slots_stake_map, slot, stake);
            SlotStakes {
                slots_stake_map,
                slots_to_repair: if slots_stake_map[slot] >= repair_threshold_stake(
                    bank.total_stake(bank.epoch_of(slot)).unwrap(),
                ) {
                    stakes.slots_to_repair.insert(slot)
                } else {
                    stakes.slots_to_repair
                },
            }
        },
        None => stakes,
    }
}

/// The stakes after the validator `from` has been counted for the first `n`
/// of `slots`.
pub open spec fn with_slots(
    bank: RootBank,
    from: Pubkey,
    stakes: SlotStakes,
    slots: Seq<Slot>,
    n: int,
) -> SlotStakes
    decreases n,
{
    if n <= 0 {
        stakes
    } else {
        with_slot(bank, from, with_slots(bank, from, stakes, slots, n - 1), slots[n - 1])
    }
}

/// The figures of an epoch after a validator `from` whose last vote lies in
/// `last_vote_epoch` has been heard from. A last vote that the schedule gives
/// no epoch counts for no epoch.
pub open spec fn epoch_info_with(
    bank: RootBank,
    info: LastVotedForkSlotsEpochInfo,
    from: Pubkey,
    last_vote_epoch: Option<Epoch>,
) -> LastVotedForkSlotsEpochInfo {
    let stake = bank.validator_stake(info.epoch, from);
    LastVotedForkSlotsEpochInfo {
        epoch: info.epoch,
        total_stake: info.total_stake,
        actively_voting_stake: saturating_sum(info.actively_voting_stake, stake),
        actively_voting_for_this_epoch_stake: if last_vote_epoch is Some && info.epoch
            <= last_vote_epoch.unwrap() {
            saturating_sum(info.actively_voting_for_this_epoch_stake, stake)
        } else {
            info.actively_voting_for_this_epoch_stake
        },
    }
}

/// Whether an epoch counts for the end of the first phase: more than one
/// third of its stake has voted for a slot in it.
pub open spec fn epoch_is_considered(info: LastVotedForkSlotsEpochInfo) -> bool {
    3 * info.actively_voting_for_this_epoch_stake > info.total_stake
}

/// The share of the stake of an epoch that has been heard from, in whole
/// percent.
pub open spec fn active_percent(info: LastVotedForkSlotsEpochInfo) -> u64 {
    if info.total_stake == 0 || 100 * info.actively_voting_stake / (info.total_stake as int)
        > u64::MAX {
        u64::MAX
    } else {
        (100 * info.actively_voting_stake / (info.total_stake as int)) as u64
    }
}

/// The smallest share heard from among the first `n` epochs that count, if
/// one of them counts.
pub open spec fn min_active_percent_of(infos: Seq<LastVotedForkSlotsEpochInfo>, n: int) -> Option<
    u64,
>
    decreases n,
{
    if n <= 0 {
        None
    } else {
        let before = min_active_percent_of(infos, n - 1);
        if epoch_is_considered(infos[n - 1]) {
            match before {
                Some(least) => if active_percent(infos[n - 1]) < least {
                    Some(active_percent(infos[n - 1]))
                } else {
                    before
                },
                None => Some(active_percent(infos[n - 1])),
            }
        } else {
            before
        }
    }
}

/// The views of a list of messages.
pub open spec fn message_views(messages: Seq<RestartLastVotedForkSlots>) -> Seq<
    RestartLastVotedForkSlotsView,
> {
    Seq::new(messages.len(), |i: int| messages[i]@)
}

/// Collects the forks that the validators last voted on: the stake behind
/// each slot from the root on, the stake heard from in the epoch of the root
/// and in the next, and the slots that are worth repairing.
pub struct LastVotedForkSlotsAggregate {
    pub root_bank: RootBank,
    pub my_pubkey: Pubkey,
    pub epoch_info_vec: Vec<LastVotedForkSlotsEpochInfo>,
    pub last_voted_fork_slots: Vec<RestartLastVotedForkSlots>,
    pub slots_stake_map: HashMap<Slot, u64>,
    pub slots_to_repair: BTreeSet<Slot>,
}

/// What a `LastVotedForkSlotsAggregate` holds, as mathematical values: contracts speak of it.
pub struct LastVotedForkSlotsAggregateView {
    pub root_bank: RootBank,
    pub my_pubkey: Pubkey,
    pub epoch_info_vec: Seq<LastVotedForkSlotsEpochInfo>,
    pub last_voted_fork_slots: Seq<RestartLastVotedForkSlotsView>,
    pub slots_stake_map: Map<Slot, u64>,
    pub slots_to_repair: Set<Slot>,
}

impl View for LastVotedForkSlotsAggregate {
    type V = LastVotedForkSlotsAggregateView;

    open spec fn view(&self) -> Self::V {
        LastVotedForkSlotsAggregateView {
            root_bank: self.root_bank,
            my_pubkey: self.my_pubkey,
            epoch_info_vec: self.epoch_info_vec@,
            last_voted_fork_slots: message_views(self.last_voted_fork_slots@),
            slots_stake_map: self.slots_stake_map@,
            slots_to_repair: self.slots_to_repair@,
        }
    }
}

impl LastVotedForkSlotsAggregateView {
    /// The message that the aggregate holds of `from`, if it holds one.
    pub open spec fn message_of(self, from: Pubkey) -> Option<RestartLastVotedForkSlotsView> {
        first_wanted(
            self.last_voted_fork_slots,
            |message: RestartLastVotedForkSlotsView| message.from == from,
        )
    }

    /// Whether a message would be taken in: it is from another validator, of
    /// which the aggregate holds no message yet.
    pub open spec fn takes(self, message: RestartLastVotedForkSlotsView) -> bool {
        message.from != self.my_pubkey && self.message_of(message.from) is None
    }

    /// The aggregate after `message` has been taken in.
    pub open spec fn with_message(self, message: RestartLastVotedForkSlotsView) -> Self {
        let last_vote_epoch = self.root_bank.epoch_at(message.last_voted_slot);
        let stakes = with_slots(
            self.root_bank,
            message.from,
            SlotStakes {
                slots_stake_map: self.slots_stake_map,
                slots_to_repair: self.slots_to_repair,
            },
            message.last_voted_fork_slots,
            message.last_voted_fork_slots.len() as int,
        );
        LastVotedForkSlotsAggregateView {
            root_bank: self.root_bank,
            my_pubkey: self.my_pubkey,
            epoch_info_vec: Seq::new(
                self.epoch_info_vec.len(),
                |i: int|
                    epoch_info_with(
                        self.root_bank,
                        self.epoch_info_vec[i],
                        message.from,
                        last_vote_epoch,
                    ),
            ),
            last_voted_fork_slots: self.last_voted_fork_slots.push(message),
            slots_stake_map: stakes.slots_stake_map,
            slots_to_repair: stakes.slots_to_repair,
        }
    }

    /// The smallest share of stake heard from among the epochs that count, in
    /// whole percent, and 0 where no epoch counts.
    pub open spec fn min_active_percent(self) -> u64 {
        match min_active_percent_of(self.epoch_info_vec, self.epoch_info_vec.len() as int) {
            Some(least) => least,
            None => 0,
        }
    }
}

/// The stake behind each slot once the validator that runs the aggregate has
/// counted itself for the first `n` of its own slots: for each slot from the
/// root on, the stake that it holds in the epoch of the slot.
pub open spec fn my_slots_counted(
    bank: RootBank,
    my_pubkey: Pubkey,
    slots: Seq<Slot>,
    n: int,
) -> Map<Slot, u64>
    decreases n,
{
    if n <= 0 {
        Map::empty()
    } else {
        let before = my_slots_counted(bank, my_pubkey, slots, n - 1);
        let slot = slots[n - 1];
        match bank.slot_stake(slot, my_pubkey) {
            Some(stake) => if slot >= bank.slot {
                before.insert(slot, stake)
            } else {
                before
            },
            None => before,
        }
    }
}

/// The largest of the first `n` slots, and 0 where `n` is 0.
pub open spec fn max_slot(slots: Seq<Slot>, n: int) -> Slot
    decreases n,
{
    if n <= 0 {
        0
    } else if slots[n - 1] > max_slot(slots, n - 1) {
        slots[n - 1]
    } else {
        max_slot(slots, n - 1)
    }
}

/// The figures that an epoch starts with: only the validator that runs the
/// aggregate has been heard from.
pub open spec fn initial_epoch_info(
    bank: RootBank,
    my_pubkey: Pubkey,
    epoch: Epoch,
    my_last_vote_epoch: Epoch,
) -> LastVotedForkSlotsEpochInfo {
    let my_stake = bank.validator_stake(epoch, my_pubkey);
    LastVotedForkSlotsEpochInfo {
        epoch,
        total_stake: bank.total_stake(epoch).unwrap(),
        actively_voting_stake: my_stake,
        actively_voting_for_this_epoch_stake: if epoch <= my_last_vote_epoch {
            my_stake
        } else {
            0
        },
    }
}

/// Whether an aggregate can be started: the validator has voted, the
/// schedule gives its last vote and the root an epoch, and the bank knows the
/// stakes of the epoch of its root and of the next.
pub open spec fn can_start(bank: RootBank, my_last_voted_fork_slots: Seq<Slot>) -> bool {
    let root_epoch = bank.epoch_of(bank.slot);
    &&& my_last_voted_fork_slots.len() > 0
    &&& bank.has_epoch(bank.slot)
    &&& bank.has_epoch(max_slot(my_last_voted_fork_slots, my_last_voted_fork_slots.len() as int))
    &&& root_epoch < u64::MAX - 1
    &&& bank.total_stake(root_epoch) is Some
    &&& bank.total_stake((root_epoch + 1) as u64) is Some
}

/// The aggregate that a validator starts with.
pub open spec fn initial_aggregate(
    bank: RootBank,
    my_last_voted_fork_slots: Seq<Slot>,
    my_pubkey: Pubkey,
) -> LastVotedForkSlotsAggregateView {
    let root_epoch = bank.epoch_of(bank.slot);
    let my_last_vote_epoch = bank.epoch_of(
        max_slot(my_last_voted_fork_slots, my_last_voted_fork_slots.len() as int),
    );
    LastVotedForkSlotsAggregateView {
        root_bank: bank,
        my_pubkey,
        epoch_info_vec: seq![
            initial_epoch_info(bank, my_pubkey, root_epoch, my_last_vote_epoch),
            initial_epoch_info(bank, my_pubkey, (root_epoch + 1) as u64, my_last_vote_epoch),
        ],
        last_voted_fork_slots: Seq::empty(),
        slots_stake_map: my_slots_counted(
            bank,
            my_pubkey,
            my_last_voted_fork_slots,
            my_last_voted_fork_slots.len() as int,
        ),
        slots_to_repair: Set::empty(),
    }
}

/// The stake that has to stand behind a slot before the slot is worth
/// repairing, in an epoch with the whole stake `total_stake`.
pub fn repair_threshold(total_stake: u64) -> (stake: u64)
    ensures
        stake == repair_threshold_stake(total_stake),
{
    let product: u128 = (total_stake as u128) * (REPAIR_THRESHOLD_PERCENT as u128);
    (product / 100) as u64
}

impl LastVotedForkSlotsAggregate {
    /// Starts an aggregate at the root bank, with the fork that this
    /// validator itself last voted on.
    pub fn new(
        root_bank: RootBank,
        my_last_voted_fork_slots: &Vec<Slot>,
        my_pubkey: &Pubkey,
    ) -> (aggregate: Self)
        requires
            can_start(root_bank, my_last_voted_fork_slots@),
        ensures
            aggregate@ == initial_aggregate(root_bank, my_last_voted_fork_slots@, *my_pubkey),
    {
        broadcast use vstd::std_specs::hash::group_hash_axioms;

        let mut slots_stake_map: HashMap<Slot, u64> = HashMap::new();
        let mut last_voted_slot: Slot = 0;
        let mut i: usize = 0;
        while i < my_last_voted_fork_slots.len()
            invariant
                i <= my_last_voted_fork_slots@.len(),
                slots_stake_map@ == my_slots_counted(
                    root_bank,
                    *my_pubkey,
                    my_last_voted_fork_slots@,
                    i as int,
                ),
                last_voted_slot == max_slot(my_last_voted_fork_slots@, i as int),
            decreases my_last_voted_fork_slots@.len() - i,
        {
            let slot = my_last_voted_fork_slots[i];
            if slot >= root_bank.slot {
                match root_bank.slot_node_id_to_stake(slot, my_pubkey) {
                    Some(sender_stake) => {
                        slots_stake_map.insert(slot, sender_stake);
                    },
                    None => {},
                }
            }
            if slot > last_voted_slot {
                last_voted_slot = slot;
            }
            i += 1;
        }
        let my_last_vote_epoch = root_bank.get_epoch(last_voted_slot).unwrap();
        let root_epoch = root_bank.epoch().unwrap();
        let mut epoch_info_vec: Vec<LastVotedForkSlotsEpochInfo> = Vec::new();
        // Only slots in the epoch of the root and in the next are considered.
        epoch_info_vec.push(
            Self::first_epoch_info(&root_bank, my_pubkey, root_epoch, my_last_vote_epoch),
        );
        epoch_info_vec.push(
            Self::first_epoch_info(&root_bank, my_pubkey, root_epoch + 1, my_last_vote_epoch),
        );
        let aggregate = LastVotedForkSlotsAggregate {
            root_bank,
            my_pubkey: *my_pubkey,
            epoch_info_vec,
            last_voted_fork_slots: Vec::new(),
            slots_stake_map,
            slots_to_repair: BTreeSet::new(),
        };
        proof {
            let expected = initial_aggregate(root_bank, my_last_voted_fork_slots@, *my_pubkey);
            assert(aggregate@.epoch_info_vec =~= expected.epoch_info_vec);
            assert(aggregate@.last_voted_fork_slots =~= expected.last_voted_fork_slots);
        }
        aggregate
    }

    /// The figures that an epoch starts with.
    fn first_epoch_info(
        root_bank: &RootBank,
        my_pubkey: &Pubkey,
        epoch: Epoch,
        my_last_vote_epoch: Epoch,
    ) -> (info: LastVotedForkSlotsEpochInfo)
        requires
            root_bank.total_stake(epoch) is Some,
        ensures
            info == initial_epoch_info(*root_bank, *my_pubkey, epoch, my_last_vote_epoch),
    {
        let total_stake = root_bank.epoch_total_stake(epoch).unwrap();
        let my_stake = Self::validator_stake(root_bank, epoch, my_pubkey);
        LastVotedForkSlotsEpochInfo {
            epoch,
            total_stake,
            actively_voting_stake: my_stake,
            actively_voting_for_this_epoch_stake: if epoch <= my_last_vote_epoch {
                my_stake
            } else {
                0
            },
        }
    }

    /// Whether a validator whose last vote lies in `last_vote_epoch` has
    /// voted in `epoch` or later.
    fn voted_in(epoch: Epoch, last_vote_epoch: Option<Epoch>) -> (yes: bool)
        ensures
            yes == (last_vote_epoch is Some && epoch <= last_vote_epoch.unwrap()),
    {
        match last_vote_epoch {
            Some(last) => epoch <= last,
            None => false,
        }
    }

    /// The stake of a validator in an epoch, and 0 where the bank knows none.
    fn validator_stake(root_bank: &RootBank, epoch: Epoch, pubkey: &Pubkey) -> (stake: u64)
        ensures
            stake == root_bank.validator_stake(epoch, *pubkey),
    {
        match root_bank.epoch_node_id_to_stake(epoch, pubkey) {
            Some(stake) => stake,
            None => 0,
        }
    }

    /// Whether an aggregate can be started at `root_bank` with the fork that
    /// this validator last voted on.
    pub fn can_start(root_bank: &RootBank, my_last_voted_fork_slots: &Vec<Slot>) -> (ok: bool)
        ensures
            ok == can_start(*root_bank, my_last_voted_fork_slots@),
    {
        if my_last_voted_fork_slots.len() == 0 {
            return false;
        }
        let mut last_voted_slot: Slot = 0;
        let mut i: usize = 0;
        while i < my_last_voted_fork_slots.len()
            invariant
                i <= my_last_voted_fork_slots@.len(),
                last_voted_slot == max_slot(my_last_voted_fork_slots@, i as int),
            decreases my_last_voted_fork_slots@.len() - i,
        {
            if my_last_voted_fork_slots[i] > last_voted_slot {
                last_voted_slot = my_last_voted_fork_slots[i];
            }
            i += 1;
        }
        if root_bank.get_epoch(last_voted_slot).is_none() {
            return false;
        }
        match root_bank.epoch() {
            Some(root_epoch) => root_epoch < u64::MAX - 1 && root_bank.epoch_total_stake(
                root_epoch,
            ).is_some() && root_bank.epoch_total_stake(root_epoch + 1).is_some(),
            None => false,
        }
    }

    /// As `new`, for any bank and fork: `None` where no aggregate can be
    /// started.
    pub fn try_new(
        root_bank: RootBank,
        my_last_voted_fork_slots: &Vec<Slot>,
        my_pubkey: &Pubkey,
    ) -> (aggregate: Option<Self>)
        ensures
            aggregate is Some <==> can_start(root_bank, my_last_voted_fork_slots@),
            aggregate matches Some(started) ==> started@ == initial_aggregate(
                root_bank,
                my_last_voted_fork_slots@,
                *my_pubkey,
            ),
    {
        if Self::can_start(&root_bank, my_last_voted_fork_slots) {
            Some(Self::new(root_bank, my_last_voted_fork_slots, my_pubkey))
        } else {
            None
        }
    }
}

impl LastVotedForkSlotsAggregate {
    /// The stake behind each slot and the slots worth repairing, as the
    /// aggregate holds them.
    pub open spec fn slot_stakes(&self) -> SlotStakes {
        SlotStakes {
            slots_stake_map: self.slots_stake_map@,
            slots_to_repair: self.slots_to_repair@,
        }
    }

    /// Hands a message to the aggregate. The first message of another
    /// validator is taken in. A message of a validator that the aggregate
    /// has heard from already, or of the validator that runs the aggregate,
    /// changes nothing: the result says whether it repeats or contradicts the
    /// one that the aggregate holds.
    pub fn aggregate(&mut self, new_slots: RestartLastVotedForkSlots) -> (result:
        LastVotedForkSlotsAggregateResult)
        ensures
            match result {
                LastVotedForkSlotsAggregateResult::AlreadyExists => {
                    &&& final(self)@ == old(self)@
                    &&& (new_slots.from == old(self).my_pubkey || old(self)@.message_of(
                        new_slots.from,
                    ) == Some(new_slots@))
                },
                LastVotedForkSlotsAggregateResult::DifferentVersionExists(held, refused) => {
                    &&& final(self)@ == old(self)@
                    &&& new_slots.from != old(self).my_pubkey
                    &&& old(self)@.message_of(new_slots.from) == Some(held@)
                    &&& held@ != new_slots@
                    &&& refused@ == new_slots@
                },
                LastVotedForkSlotsAggregateResult::Inserted(record) => {
                    &&& old(self)@.takes(new_slots@)
                    &&& final(self)@ == old(self)@.with_message(new_slots@)
                    &&& record@ == new_slots@.to_record()
                },
            },
    {
        broadcast use vstd::std_specs::hash::group_hash_axioms;
        broadcast use vstd::std_specs::btree::group_btree_axioms;

        let from = new_slots.from;
        if from == self.my_pubkey {
            return LastVotedForkSlotsAggregateResult::AlreadyExists;
        }
        let ghost held_views = message_views(self.last_voted_fork_slots@);
        let ghost wanted = |message: RestartLastVotedForkSlotsView| message.from == from;
        let mut i: usize = 0;
        while i < self.last_voted_fork_slots.len()
            invariant
                i <= self.last_voted_fork_slots@.len(),
                *self == *old(self),
                from == new_slots.from,
                from != self.my_pubkey,
                held_views == message_views(self.last_voted_fork_slots@),
                wanted == |message: RestartLastVotedForkSlotsView| message.from == from,
                forall|j: int| 0 <= j < i ==> !wanted(#[trigger] held_views[j]),
            decreases self.last_voted_fork_slots@.len() - i,
        {
            if self.last_voted_fork_slots[i].from == from {
                proof {
                    lemma_first_wanted(held_views, wanted, i as int);
                }
                if self.last_voted_fork_slots[i].same(&new_slots) {
                    return LastVotedForkSlotsAggregateResult::AlreadyExists;
                } else {
                    return LastVotedForkSlotsAggregateResult::DifferentVersionExists(
                        self.last_voted_fork_slots[i].clone(),
                        new_slots,
                    );
                }
            }
            i += 1;
        }
        proof {
            lemma_none_wanted(held_views, wanted);
        }
        let record = new_slots.to_record();
        let last_vote_epoch = self.root_bank.get_epoch(new_slots.last_voted_slot);
        let mut k: usize = 0;
        while k < self.epoch_info_vec.len()
            invariant
                k <= self.epoch_info_vec@.len(),
                self.epoch_info_vec@.len() == old(self).epoch_info_vec@.len(),
                self.root_bank == old(self).root_bank,
                self.my_pubkey == old(self).my_pubkey,
                self.last_voted_fork_slots == old(self).last_voted_fork_slots,
                self.slots_stake_map == old(self).slots_stake_map,
                self.slots_to_repair == old(self).slots_to_repair,
                from == new_slots.from,
                last_vote_epoch == self.root_bank.epoch_at(new_slots.last_voted_slot),
                forall|j: int|
                    0 <= j < k ==> self.epoch_info_vec@[j] == epoch_info_with(
                        self.root_bank,
                        old(self).epoch_info_vec@[j],
                        from,
                        last_vote_epoch,
                    ),
                forall|j: int|
                    k <= j < self.epoch_info_vec@.len() ==> self.epoch_info_vec@[j] == old(
                        self,
                    ).epoch_info_vec@[j],
            decreases self.epoch_info_vec@.len() - k,
        {
            let info = self.epoch_info_vec[k];
            let stake = Self::validator_stake(&self.root_bank, info.epoch, &from);
            let updated = LastVotedForkSlotsEpochInfo {
                epoch: info.epoch,
                total_stake: info.total_stake,
                actively_voting_stake: info.actively_voting_stake.saturating_add(stake),
                actively_voting_for_this_epoch_stake: if Self::voted_in(
                    info.epoch,
                    last_vote_epoch,
                ) {
                    info.actively_voting_for_this_epoch_stake.saturating_add(stake)
                } else {
                    info.actively_voting_for_this_epoch_stake
                },
            };
            self.epoch_info_vec[k] = updated;
            k += 1;
        }
        let ghost infos = self.epoch_info_vec@;
        let mut n: usize = 0;
        while n < new_slots.last_voted_fork_slots.len()
            invariant
                n <= new_slots.last_voted_fork_slots@.len(),
                self.root_bank == old(self).root_bank,
                self.my_pubkey == old(self).my_pubkey,
                self.last_voted_fork_slots == old(self).last_voted_fork_slots,
                self.epoch_info_vec@ == infos,
                from == new_slots.from,
                old(self)@.takes(new_slots@),
                held_views == message_views(self.last_voted_fork_slots@),
                infos =~= old(self)@.with_message(new_slots@).epoch_info_vec,
                self.slot_stakes() == with_slots(
                    self.root_bank,
                    from,
                    old(self).slot_stakes(),
                    new_slots.last_voted_fork_slots@,
                    n as int,
                ),
            decreases new_slots.last_voted_fork_slots@.len() - n,
        {
            let slot = new_slots.last_voted_fork_slots[n];
            match self.root_bank.slot_node_id_to_stake(slot, &from) {
                Some(sender_stake) => {
                    let held = match self.slots_stake_map.get(&slot) {
                        Some(stake) => *stake,
                        None => 0,
                    };
                    let stake = held.saturating_add(sender_stake);
                    self.slots_stake_map.insert(slot, stake);
                    let epoch = self.root_bank.get_epoch(slot).unwrap();
                    let total_stake = self.root_bank.epoch_total_stake(epoch).unwrap();
                    if stake >= repair_threshold(total_stake) {
                        self.slots_to_repair.insert(slot);
                    }
                },
                None => {},
            }
            n += 1;
        }
        proof {
            assert(message_views(self.last_voted_fork_slots@.push(new_slots)) =~= held_views.push(
                new_slots@,
            ));
        }
        self.last_voted_fork_slots.push(new_slots);
        LastVotedForkSlotsAggregateResult::Inserted(record)
    }
}

impl LastVotedForkSlotsAggregate {
    /// The slots that are worth repairing, each once.
    pub fn slots_to_repair(&self) -> (slots: Vec<Slot>)
        ensures
            slots@.to_set() == self@.slots_to_repair,
            slots@.no_duplicates(),
    {
        broadcast use vstd::std_specs::btree::group_btree_axioms;

        let mut slots: Vec<Slot> = Vec::new();
        let ghost all = vstd::std_specs::btree::spec_btree_keys_iter(&self.slots_to_repair).remaining();
        for slot in it: self.slots_to_repair.iter()
            invariant
                it.seq() == all,
                slots@.len() == it.index(),
                forall|j: int| 0 <= j < slots@.len() ==> slots@[j] == *all[j],
        {
            slots.push(*slot);
        }
        proof {
            assert(slots@ =~= all.unref());
        }
        slots
    }

    /// The smallest share of stake heard from among the epochs that count, in
    /// whole percent, and 0 where no epoch counts.
    pub fn min_active_percent(&self) -> (percent: u64)
        ensures
            percent == self@.min_active_percent(),
    {
        let mut least: Option<u64> = None;
        let mut i: usize = 0;
        while i < self.epoch_info_vec.len()
            invariant
                i <= self.epoch_info_vec@.len(),
                least == min_active_percent_of(self.epoch_info_vec@, i as int),
            decreases self.epoch_info_vec@.len() - i,
        {
            let info = &self.epoch_info_vec[i];
            let voted: u128 = 3 * (info.actively_voting_for_this_epoch_stake as u128);
            if voted > info.total_stake as u128 {
                let share: u64 = if info.total_stake == 0 {
                    u64::MAX
                } else {
                    let whole: u128 = 100 * (info.actively_voting_stake as u128) / (
                    info.total_stake as u128);
                    if whole > u64::MAX as u128 {
                        u64::MAX
                    } else {
                        whole as u64
                    }
                };
                least = match least {
                    Some(held) => if share < held {
                        Some(share)
                    } else {
                        Some(held)
                    },
                    None => Some(share),
                };
            }
            i += 1;
        }
        match least {
            Some(held) => held,
            None => 0,
        }
    }

    /// Ends the aggregate: the stake behind each slot and the figures of the
    /// epochs.
    pub fn get_final_result(self) -> (result: LastVotedForkSlotsFinalResult)
        ensures
            result@.slots_stake_map == self@.slots_stake_map,
            result@.epoch_info_vec == self@.epoch_info_vec,
    {
        LastVotedForkSlotsFinalResult {
            slots_stake_map: self.slots_stake_map,
            epoch_info_vec: self.epoch_info_vec,
        }
    }
}

/// Why a record on disk cannot be handed to the aggregate.
#[derive(Clone, Copy, Debug, PartialEq, Eq)]
pub enum RecordError {
    /// The key of the record is not the base58 form of a public key.
    MalformedPubkey(PubkeyParseError),
    /// The bank hash of the record is not the base58 form of a hash.
    MalformedHash(crate::hash::HashParseError),
    /// Gossip refuses the slots of the record.
    MalformedFork,
}

/// What gossip makes of the slots of a record: the last voted slot, and the
/// slots from the root of the receiver on, in ascending order.
#[derive(Debug, PartialEq, Eq)]
pub struct LastVotedFork {
    pub last_voted_slot: Slot,
    pub slots_from_root: Vec<Slot>,
}

/// The message that a record on disk stands for, given the validator that
/// it is from, the bank hash that it names and what gossip makes of its
/// slots.
pub open spec fn message_of_record(
    from: Pubkey,
    record: LastVotedForkSlotsRecordView,
    hash: crate::hash::Hash,
    fork: LastVotedFork,
) -> RestartLastVotedForkSlotsView {
    RestartLastVotedForkSlotsView {
        from,
        wallclock: record.wallclock,
        last_voted_fork_slots: fork.slots_from_root@,
        last_voted_slot: fork.last_voted_slot,
        last_voted_hash: hash,
        shred_version: record.shred_version as u16,
    }
}

/// What handing a record on disk to the aggregate comes to before the
/// aggregate sees a message: the error, `Ok(None)` for a record of the
/// validator that runs the aggregate, or the message that the record stands
/// for.
pub open spec fn read_record(
    my_pubkey: Pubkey,
    key: Seq<char>,
    record: LastVotedForkSlotsRecordView,
    fork: Option<LastVotedFork>,
) -> Result<Option<RestartLastVotedForkSlotsView>, RecordError> {
    match pubkey_from_base58(key) {
        Err(e) => Err(RecordError::MalformedPubkey(e)),
        Ok(from) => if from == my_pubkey {
            Ok(None)
        } else {
            match crate::hash::hash_from_base58(record.last_vote_bankhash) {
                Err(e) => Err(RecordError::MalformedHash(e)),
                Ok(hash) => match fork {
                    None => Err(RecordError::MalformedFork),
                    Some(fork) => Ok(Some(message_of_record(from, record, hash, fork))),
                },
            }
        },
    }
}

/// Whether `r` and `after` are what handing a record to the aggregate
/// `before` comes to.
pub open spec fn record_handed(
    before: LastVotedForkSlotsAggregateView,
    after: LastVotedForkSlotsAggregateView,
    key: Seq<char>,
    record: LastVotedForkSlotsRecordView,
    fork: Option<LastVotedFork>,
    r: Result<LastVotedForkSlotsAggregateResult, RecordError>,
) -> bool {
    match read_record(before.my_pubkey, key, record, fork) {
        Err(e) => r == Err::<LastVotedForkSlotsAggregateResult, RecordError>(e) && after == before,
        Ok(None) => r == Ok::<LastVotedForkSlotsAggregateResult, RecordError>(
            LastVotedForkSlotsAggregateResult::AlreadyExists,
        ) && after == before,
        Ok(Some(message)) => match r {
            Ok(LastVotedForkSlotsAggregateResult::AlreadyExists) => {
                &&& after == before
                &&& before.message_of(message.from) == Some(message)
            },
            Ok(LastVotedForkSlotsAggregateResult::DifferentVersionExists(held, refused)) => {
                &&& after == before
                &&& before.message_of(message.from) == Some(held@)
                &&& held@ != message
                &&& refused@ == message
            },
            Ok(LastVotedForkSlotsAggregateResult::Inserted(kept)) => {
                &&& before.takes(message)
                &&& after == before.with_message(message)
                &&& kept@ == message.to_record()
            },
            Err(_) => false,
        },
    }
}

impl LastVotedForkSlotsAggregate {
    /// Hands a record that was read from disk to the aggregate, as `aggregate`
    /// would take the message that it stands for. `fork` is what gossip makes
    /// of the slots of the record, `None` where gossip refuses them. A record
    /// of the validator that runs the aggregate changes nothing.
    pub fn aggregate_from_record(
        &mut self,
        key_string: &String,
        record: &LastVotedForkSlotsRecord,
        fork: Option<LastVotedFork>,
    ) -> (r: Result<LastVotedForkSlotsAggregateResult, RecordError>)
        ensures
            record_handed(old(self)@, final(self)@, key_string@, record@, fork, r),
    {
        let from = match Pubkey::from_str(key_string.as_str()) {
            Ok(from) => from,
            Err(e) => {
                return Err(RecordError::MalformedPubkey(e));
            },
        };
        if from == self.my_pubkey {
            return Ok(LastVotedForkSlotsAggregateResult::AlreadyExists);
        }
        let last_voted_hash = match crate::hash::Hash::from_str(record.last_vote_bankhash.as_str()) {
            Ok(hash) => hash,
            Err(e) => {
                return Err(RecordError::MalformedHash(e));
            },
        };
        match fork {
            Some(fork) => {
                let converted_record = RestartLastVotedForkSlots {
                    from,
                    wallclock: record.wallclock,
                    last_voted_fork_slots: fork.slots_from_root,
                    last_voted_slot: fork.last_voted_slot,
                    last_voted_hash,
                    shred_version: crate::state::narrow_shred_version(record.shred_version),
                };
                Ok(self.aggregate(converted_record))
            },
            None => Err(RecordError::MalformedFork),
        }
    }
}

impl Clone for LastVotedFork {
    fn clone(&self) -> (copy: Self)
        ensures
            copy.last_voted_slot == self.last_voted_slot,
            copy.slots_from_root@ == self.slots_from_root@,
    {
        LastVotedFork {
            last_voted_slot: self.last_voted_slot,
            slots_from_root: self.slots_from_root.clone(),
        }
    }
}

impl RestartLastVotedForkSlotsView {
    /// The message as text, for the operator.
    pub open spec fn text(self) -> Seq<char> {
        "RestartLastVotedForkSlots { from: "@ + self.from.text() + ", wallclock: "@
            + crate::text::decimal(self.wallclock as nat) + ", last_voted_fork_slots: "@
            + crate::text::decimal_list(self.last_voted_fork_slots) + ", last_voted_slot: "@
            + crate::text::decimal(self.last_voted_slot as nat) + ", last_voted_hash: "@
            + self.last_voted_hash.text() + ", shred_version: "@ + crate::text::decimal(
            self.shred_version as nat,
        ) + " }"@
    }
}

impl RestartLastVotedForkSlots {
    /// Writes the message as text, for the operator.
    pub fn describe(&self) -> (text: String)
        ensures
            text@ == self@.text(),
    {
        let mut text = String::from_str("RestartLastVotedForkSlots { from: ");
        text.append(self.from.to_string().as_str());
        text.append(", wallclock: ");
        crate::text::push_decimal(&mut text, self.wallclock);
        text.append(", last_voted_fork_slots: ");
        crate::text::push_decimal_list(&mut text, &self.last_voted_fork_slots);
        text.append(", last_voted_slot: ");
        crate::text::push_decimal(&mut text, self.last_voted_slot);
        text.append(", last_voted_hash: ");
        text.append(self.last_voted_hash.to_string().as_str());
        text.append(", shred_version: ");
        crate::text::push_decimal(&mut text, self.shred_version as u64);
        text.append(" }");
        text
    }
}

impl LastVotedForkSlotsAggregateView {
    /// The aggregate after a record on disk has been handed to it.
    pub open spec fn with_record(
        self,
        key: Seq<char>,
        record: LastVotedForkSlotsRecordView,
        fork: Option<LastVotedFork>,
    ) -> Self {
        match read_record(self.my_pubkey, key, record, fork) {
            Ok(Some(message)) => if self.takes(message) {
                self.with_message(message)
            } else {
                self
            },
            _ => self,
        }
    }
}

/// After a record has been handed to the aggregate, the aggregate is as
/// `with_record` says.
pub proof fn lemma_record_handed(
    before: LastVotedForkSlotsAggregateView,
    after: LastVotedForkSlotsAggregateView,
    key: Seq<char>,
    record: LastVotedForkSlotsRecordView,
    fork: Option<LastVotedFork>,
    r: Result<LastVotedForkSlotsAggregateResult, RecordError>,
)
    requires
        record_handed(before, after, key, record, fork, r),
    ensures
        after == before.with_record(key, record, fork),
{
    crate::root_bank::lemma_first_wanted_is_wanted(
        before.last_voted_fork_slots,
        |message: RestartLastVotedForkSlotsView|
            message.from == read_record(before.my_pubkey, key, record, fork).unwrap().unwrap().from,
    );
}

/// Whether the stake behind a slot, where any stands behind it, is no more
/// than the stake behind its parent.
pub open spec fn stakes_not_backward(map: Map<Slot, u64>, child: Slot, parent: Slot) -> bool {
    map.contains_key(child) ==> map.contains_key(parent) && map[child] <= map[parent]
}

/// Whether the validator `from` is counted for `slot`: the slot is among the
/// first `n` of its slots, and it has stake in the epoch of the slot.
pub open spec fn is_counted(
    bank: RootBank,
    from: Pubkey,
    slots: Seq<Slot>,
    n: int,
    slot: Slot,
) -> bool {
    &&& exists|i: int| 0 <= i < n && slots[i] == slot
    &&& bank.slot_stake(slot, from) is Some
}

/// What counting a validator for its slots does to the stake behind one
/// slot: where the validator is counted for the slot, its stake in the epoch
/// of the slot is added once; otherwise nothing changes.
pub proof fn lemma_with_slots_at(
    bank: RootBank,
    from: Pubkey,
    stakes: SlotStakes,
    slots: Seq<Slot>,
    n: int,
    slot: Slot,
)
    requires
        0 <= n <= slots.len(),
        slots.no_duplicates(),
    ensures
        ({
            let before = stakes.slots_stake_map;
            let after = with_slots(bank, from, stakes, slots, n).slots_stake_map;
            if is_counted(bank, from, slots, n, slot) {
                &&& after.contains_key(slot)
                &&& after[slot] == saturating_sum(
                    if before.contains_key(slot) {
                        before[slot]
                    } else {
                        0
                    },
                    bank.slot_stake(slot, from).unwrap(),
                )
            } else {
                &&& after.contains_key(slot) == before.contains_key(slot)
                &&& before.contains_key(slot) ==> after[slot] == before[slot]
            }
        }),
    decreases n,
{
    if n > 0 {
        lemma_with_slots_at(bank, from, stakes, slots, n - 1, slot);
        let last = slots[n - 1];
    }
}

/// No backward stakes: taking a message in keeps the stake behind a slot no
/// larger than the stake behind its parent, provided that the message names
/// no slot twice, that it names the parent wherever it names the slot, and
/// that the stake of its sender in the epoch of the slot is no larger than its
/// stake in the epoch of the parent.
pub proof fn lemma_no_backward_stakes(
    aggregate: LastVotedForkSlotsAggregateView,
    message: RestartLastVotedForkSlotsView,
    child: Slot,
    parent: Slot,
)
    requires
        stakes_not_backward(aggregate.slots_stake_map, child, parent),
        message.last_voted_fork_slots.no_duplicates(),
        message.last_voted_fork_slots.contains(child) ==> message.last_voted_fork_slots.contains(
            parent,
        ),
        aggregate.root_bank.slot_stake(child, message.from) matches Some(stake) ==> (
        aggregate.root_bank.slot_stake(parent, message.from) matches Some(parent_stake) && stake
            <= parent_stake),
    ensures
        stakes_not_backward(aggregate.with_message(message).slots_stake_map, child, parent),
{
    let bank = aggregate.root_bank;
    let slots = message.last_voted_fork_slots;
    let stakes = SlotStakes {
        slots_stake_map: aggregate.slots_stake_map,
        slots_to_repair: aggregate.slots_to_repair,
    };
    let n = slots.len() as int;
    lemma_with_slots_at(bank, message.from, stakes, slots, n, child);
    lemma_with_slots_at(bank, message.from, stakes, slots, n, parent);
}

/// What counting the own slots does to the stake behind one slot: stake
/// stands behind the slot where the slot is among the own slots and not before
/// the root, and the validator has stake in the epoch of the slot, and it is
/// that stake.
pub proof fn lemma_my_slots_counted_at(
    bank: RootBank,
    my_pubkey: Pubkey,
    slots: Seq<Slot>,
    n: int,
    slot: Slot,
)
    requires
        0 <= n <= slots.len(),
    ensures
        ({
            let map = my_slots_counted(bank, my_pubkey, slots, n);
            &&& map.contains_key(slot) <==> {
                &&& exists|i: int| 0 <= i < n && slots[i] == slot
                &&& slot >= bank.slot
                &&& bank.slot_stake(slot, my_pubkey) is Some
            }
            &&& map.contains_key(slot) ==> map[slot] == bank.slot_stake(slot, my_pubkey).unwrap()
        }),
    decreases n,
{
    if n > 0 {
        lemma_my_slots_counted_at(bank, my_pubkey, slots, n - 1, slot);
        let before = my_slots_counted(bank, my_pubkey, slots, n - 1);
    }
}

/// No backward stakes, to begin with: in the aggregate that a validator
/// starts with, the stake behind a slot is no more than the stake behind its
/// parent, provided that the validator has voted on the parent wherever it has
/// voted on the slot, that the parent is not before the root, and that its
/// stake in the epoch of the slot is no larger than in the epoch of the parent.
pub proof fn lemma_no_backward_stakes_at_start(
    bank: RootBank,
    my_last_voted_fork_slots: Seq<Slot>,
    my_pubkey: Pubkey,
    child: Slot,
    parent: Slot,
)
    requires
        my_last_voted_fork_slots.contains(child) ==> my_last_voted_fork_slots.contains(parent),
        parent >= bank.slot,
        bank.slot_stake(child, my_pubkey) matches Some(stake) ==> (bank.slot_stake(
            parent,
            my_pubkey,
        ) matches Some(parent_stake) && stake <= parent_stake),
    ensures
        stakes_not_backward(
            initial_aggregate(bank, my_last_voted_fork_slots, my_pubkey).slots_stake_map,
            child,
            parent,
        ),
{
    let n = my_last_voted_fork_slots.len() as int;
    lemma_my_slots_counted_at(bank, my_pubkey, my_last_voted_fork_slots, n, child);
    lemma_my_slots_counted_at(bank, my_pubkey, my_last_voted_fork_slots, n, parent);
    let map = my_slots_counted(bank, my_pubkey, my_last_voted_fork_slots, n);
}

impl LastVotedForkSlotsAggregateView {
    /// Whether the aggregate holds at most one message of each validator, and
    /// none of the validator that runs it.
    pub open spec fn one_message_per_peer(self) -> bool {
        &&& forall|i: int, j: int|
            0 <= i < j < self.last_voted_fork_slots.len() ==> self.last_voted_fork_slots[i].from
                != self.last_voted_fork_slots[j].from
        &&& forall|i: int|
            0 <= i < self.last_voted_fork_slots.len() ==> self.last_voted_fork_slots[i].from
                != self.my_pubkey
    }
}

/// Each validator contributes at most one message: the aggregate starts
/// without any, and whatever message is handed to it, it holds at most one of
/// each validator afterwards, and none of its own.
pub proof fn lemma_one_message_per_peer(
    aggregate: LastVotedForkSlotsAggregateView,
    message: RestartLastVotedForkSlotsView,
)
    requires
        aggregate.one_message_per_peer(),
    ensures
        aggregate.takes(message) ==> aggregate.with_message(message).one_message_per_peer(),
        !aggregate.takes(message) ==> aggregate.message_of(message.from) is Some || message.from
            == aggregate.my_pubkey,
{
    if aggregate.takes(message) {
        crate::root_bank::lemma_first_wanted_is_wanted(
            aggregate.last_voted_fork_slots,
            |held: RestartLastVotedForkSlotsView| held.from == message.from,
        );
        let after = aggregate.with_message(message);
    }
}

} // verus!
