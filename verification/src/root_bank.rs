//! What the protocol reads of the root bank: its slot, the epoch schedule
//! and the stake of each validator in the epochs that the bank knows.

use crate::pubkey::Pubkey;
use solana_clock::{Epoch, Slot};
use solana_epoch_schedule::EpochSchedule;
use vstd::prelude::*;

verus! {

/// Declares `EpochSchedule` of `solana_epoch_schedule`, with its fields.
#[verifier::external_type_specification]
pub struct ExEpochSchedule(EpochSchedule);

/// The epoch that `solana_epoch_schedule` puts a slot in, for a schedule
/// with the given length of an epoch and the given end of its warm-up.
pub uninterp spec fn epoch_of_slot(
    slots_per_epoch: u64,
    first_normal_epoch: u64,
    first_normal_slot: u64,
    slot: u64,
) -> u64;

/// The first slot that is too late for the warm-up of a schedule: the
/// schedule rounds a slot of the warm-up, with 33 added, up to a power of two,
/// and from this slot on there is none within 64 bits.
pub const WARMUP_SLOT_LIMIT: u64 = 0x7fff_ffff_ffff_ffe0;

/// `EpochSchedule::get_epoch` of `solana_epoch_schedule` gives the epoch of
/// a slot. Trusted: the epoch is a function of the slot and of three fields of
/// the schedule: the length of an epoch, and the epoch and the slot at which
/// the warm-up ends. A slot of the warm-up that is too late to be rounded up
/// is left out: the outside function overflows on it.
pub assume_specification[ EpochSchedule::get_epoch ](schedule: &EpochSchedule, slot: u64) -> (epoch:
    u64)
    requires
        slot >= schedule.first_normal_slot || slot < 0x7fff_ffff_ffff_ffe0,
    ensures
        epoch == epoch_of_slot(
            schedule.slots_per_epoch,
            schedule.first_normal_epoch,
            schedule.first_normal_slot,
            slot,
        ),
;

/// The first item of a sequence that is wanted.
pub open spec fn first_wanted<T>(items: Seq<T>, wanted: spec_fn(T) -> bool) -> Option<T>
    decreases items.len(),
{
    if items.len() == 0 {
        None
    } else if wanted(items[0]) {
        Some(items[0])
    } else {
        first_wanted(items.drop_first(), wanted)
    }
}

/// Where no item is wanted, there is no first one.
pub proof fn lemma_none_wanted<T>(items: Seq<T>, wanted: spec_fn(T) -> bool)
    requires
        forall|i: int| 0 <= i < items.len() ==> !wanted(#[trigger] items[i]),
    ensures
        first_wanted(items, wanted) is None,
    decreases items.len(),
{
    if items.len() > 0 {
        let rest = items.drop_first();
        lemma_none_wanted(rest, wanted);
    }
}

/// A wanted item with no wanted item before it is the first one.
pub proof fn lemma_first_wanted<T>(items: Seq<T>, wanted: spec_fn(T) -> bool, at: int)
    requires
        0 <= at < items.len(),
        wanted(items[at]),
        forall|i: int| 0 <= i < at ==> !wanted(#[trigger] items[i]),
    ensures
        first_wanted(items, wanted) == Some(items[at]),
    decreases items.len(),
{
    if at > 0 {
        let rest = items.drop_first();
        lemma_first_wanted(rest, wanted, at - 1);
    }
}

/// The first wanted item, if there is one, is wanted and is in the sequence.
pub proof fn lemma_first_wanted_is_wanted<T>(items: Seq<T>, wanted: spec_fn(T) -> bool)
    ensures
        first_wanted(items, wanted) matches Some(item) ==> wanted(item) && items.contains(item),
        first_wanted(items, wanted) is None ==> forall|i: int|
            0 <= i < items.len() ==> !wanted(#[trigger] items[i]),
    decreases items.len(),
{
    if items.len() > 0 {
        if !wanted(items[0]) {
            let rest = items.drop_first();
            lemma_first_wanted_is_wanted(rest, wanted);
            if first_wanted(rest, wanted) is None {
                assert forall|i: int| 0 <= i < items.len() implies !wanted(#[trigger] items[i]) by {
                    if i > 0 {
                        assert(rest[i - 1] == items[i]);
                    }
                }
            }
        }
    }
}

/// The stake that one validator holds.
#[derive(Clone, Copy, Debug, PartialEq, Eq)]
pub struct NodeStake {
    pub node: Pubkey,
    pub stake: u64,
}

/// The stakes of one epoch. Where a validator is listed twice, its first
/// entry counts.
#[derive(Clone, Debug, PartialEq, Eq)]
pub struct EpochStakes {
    pub epoch: Epoch,
    pub total_stake: u64,
    pub node_stakes: Vec<NodeStake>,
}

/// The root bank, as far as the protocol reads it. Where an epoch is listed
/// twice, its first entry counts.
pub struct RootBank {
    pub slot: Slot,
    pub epoch_schedule: EpochSchedule,
    pub epoch_stakes: Vec<EpochStakes>,
}

impl EpochStakes {
    /// The stake of `node` in this epoch, if it is listed.
    pub open spec fn stake_of(&self, node: Pubkey) -> Option<u64> {
        match first_wanted(self.node_stakes@, |entry: NodeStake| entry.node == node) {
            Some(entry) => Some(entry.stake),
            None => None,
        }
    }

    /// The stake of `node` in this epoch, if it is listed.
    pub fn node_id_to_stake(&self, node: &Pubkey) -> (stake: Option<u64>)
        ensures
            stake == self.stake_of(*node),
    {
        let ghost wanted = |entry: NodeStake| entry.node == *node;
        let mut i: usize = 0;
        while i < self.node_stakes.len()
            invariant
                i <= self.node_stakes@.len(),
                wanted == |entry: NodeStake| entry.node == *node,
                forall|j: int| 0 <= j < i ==> !wanted(#[trigger] self.node_stakes@[j]),
            decreases self.node_stakes@.len() - i,
        {
            if self.node_stakes[i].node == *node {
                proof {
                    lemma_first_wanted(self.node_stakes@, wanted, i as int);
                }
                return Some(self.node_stakes[i].stake);
            }
            i += 1;
        }
        proof {
            lemma_none_wanted(self.node_stakes@, wanted);
        }
        None
    }
}

impl RootBank {
    /// Whether the schedule gives a slot an epoch: every slot after the
    /// warm-up has one, and every slot of the warm-up that is early enough to
    /// be rounded up.
    pub open spec fn has_epoch(&self, slot: Slot) -> bool {
        slot >= self.epoch_schedule.first_normal_slot || slot < WARMUP_SLOT_LIMIT
    }

    /// The epoch of a slot. It means something only where the schedule gives
    /// the slot an epoch.
    pub open spec fn epoch_of(&self, slot: Slot) -> Epoch {
        epoch_of_slot(
            self.epoch_schedule.slots_per_epoch,
            self.epoch_schedule.first_normal_epoch,
            self.epoch_schedule.first_normal_slot,
            slot,
        )
    }

    /// The epoch of a slot, if the schedule gives it one.
    pub open spec fn epoch_at(&self, slot: Slot) -> Option<Epoch> {
        if self.has_epoch(slot) {
            Some(self.epoch_of(slot))
        } else {
            None
        }
    }

    /// The stake of `node` in the epoch of `slot`, if the schedule gives the
    /// slot an epoch, the bank knows the epoch and the epoch lists the
    /// validator.
    pub open spec fn slot_stake(&self, slot: Slot, node: Pubkey) -> Option<u64> {
        match self.epoch_at(slot) {
            Some(epoch) => self.node_stake(epoch, node),
            None => None,
        }
    }

    /// The stakes of an epoch, if the bank knows them.
    pub open spec fn stakes_of(&self, epoch: Epoch) -> Option<EpochStakes> {
        first_wanted(self.epoch_stakes@, |stakes: EpochStakes| stakes.epoch == epoch)
    }

    /// The stake of `node` in `epoch`, if the bank knows the epoch and the
    /// epoch lists the validator.
    pub open spec fn node_stake(&self, epoch: Epoch, node: Pubkey) -> Option<u64> {
        match self.stakes_of(epoch) {
            Some(stakes) => stakes.stake_of(node),
            None => None,
        }
    }

    /// The stake of `node` in `epoch`, and 0 where the bank knows none.
    pub open spec fn validator_stake(&self, epoch: Epoch, node: Pubkey) -> u64 {
        match self.node_stake(epoch, node) {
            Some(stake) => stake,
            None => 0,
        }
    }

    /// The whole stake of `epoch`, if the bank knows the epoch.
    pub open spec fn total_stake(&self, epoch: Epoch) -> Option<u64> {
        match self.stakes_of(epoch) {
            Some(stakes) => Some(stakes.total_stake),
            None => None,
        }
    }

    /// The epoch of a slot, if the schedule gives it one.
    pub fn get_epoch(&self, slot: Slot) -> (epoch: Option<Epoch>)
        ensures
            epoch == self.epoch_at(slot),
    {
        if slot >= self.epoch_schedule.first_normal_slot || slot < WARMUP_SLOT_LIMIT {
            Some(self.epoch_schedule.get_epoch(slot))
        } else {
            None
        }
    }

    /// The epoch of the root, if the schedule gives it one.
    pub fn epoch(&self) -> (epoch: Option<Epoch>)
        ensures
            epoch == self.epoch_at(self.slot),
    {
        self.get_epoch(self.slot)
    }

    /// The stake of `node` in the epoch of `slot`.
    pub fn slot_node_id_to_stake(&self, slot: Slot, node: &Pubkey) -> (stake: Option<u64>)
        ensures
            stake == self.slot_stake(slot, *node),
    {
        match self.get_epoch(slot) {
            Some(epoch) => self.epoch_node_id_to_stake(epoch, node),
            None => None,
        }
    }

    /// The stakes of an epoch, if the bank knows them.
    pub fn epoch_stakes(&self, epoch: Epoch) -> (stakes: Option<&EpochStakes>)
        ensures
            match stakes {
                Some(found) => self.stakes_of(epoch) == Some(*found),
                None => self.stakes_of(epoch) is None,
            },
    {
        let ghost wanted = |stakes: EpochStakes| stakes.epoch == epoch;
        let mut i: usize = 0;
        while i < self.epoch_stakes.len()
            invariant
                i <= self.epoch_stakes@.len(),
                wanted == |stakes: EpochStakes| stakes.epoch == epoch,
                forall|j: int| 0 <= j < i ==> !wanted(#[trigger] self.epoch_stakes@[j]),
            decreases self.epoch_stakes@.len() - i,
        {
            if self.epoch_stakes[i].epoch == epoch {
                proof {
                    lemma_first_wanted(self.epoch_stakes@, wanted, i as int);
                }
                return Some(&self.epoch_stakes[i]);
            }
            i += 1;
        }
        proof {
            lemma_none_wanted(self.epoch_stakes@, wanted);
        }
        None
    }

    /// The stake of `node` in `epoch`, if the bank knows the epoch and the
    /// epoch lists the validator.
    pub fn epoch_node_id_to_stake(&self, epoch: Epoch, node: &Pubkey) -> (stake: Option<u64>)
        ensures
            stake == self.node_stake(epoch, *node),
    {
        match self.epoch_stakes(epoch) {
            Some(stakes) => stakes.node_id_to_stake(node),
            None => None,
        }
    }

    /// The whole stake of `epoch`, if the bank knows the epoch.
    pub fn epoch_total_stake(&self, epoch: Epoch) -> (stake: Option<u64>)
        ensures
            stake == self.total_stake(epoch),
    {
        match self.epoch_stakes(epoch) {
            Some(stakes) => Some(stakes.total_stake),
            None => None,
        }
    }
}

} // verus!
