//! What the coordinator hears of the heaviest forks of the others: the stake
//! behind each block, and the stake that agrees with the coordinator.

use crate::driver::WenRestartConfig;
use crate::error::{BlockStake, WenRestartError, WenRestartErrorView};
use crate::hash::{hash_from_base58, HashParseError};
use crate::last_voted_fork_slots_aggregate::RecordError;
use crate::progress::{
    heaviest_fork_views, ConflictMessage, ConflictMessageView, HeaviestForkAggregateRecord,
    HeaviestForkAggregateRecordView, HeaviestForkRecord, HeaviestForkRecordView, RestartState,
    WenRestartProgress, WenRestartProgressView,
};
use crate::pubkey::{pubkey_from_base58, Pubkey};
use crate::root_bank::{
    first_wanted, lemma_first_wanted, lemma_none_wanted, EpochStakes, RootBank,
};
use solana_clock::Epoch;
use solana_clock::Slot;
use vstd::prelude::*;

verus! {

/// The heaviest fork of a validator, as it arrives by gossip.
#[derive(Clone, Copy, Debug, PartialEq, Eq)]
pub struct RestartHeaviestFork {
    pub from: Pubkey,
    pub wallclock: u64,
    pub last_slot: Slot,
    pub last_slot_hash: crate::hash::Hash,
    pub observed_stake: u64,
    pub shred_version: u16,
}

impl RestartHeaviestFork {
    /// The record that is kept of the message.
    pub open spec fn record(self) -> HeaviestForkRecordView {
        HeaviestForkRecordView {
            slot: self.last_slot,
            bankhash: self.last_slot_hash.text(),
            total_active_stake: self.observed_stake,
            shred_version: self.shred_version as u32,
            wallclock: self.wallclock,
            from: self.from.text(),
        }
    }

    /// The record that is kept of the message.
    pub fn to_record(&self) -> (record: HeaviestForkRecord)
        ensures
            record@ == self.record(),
    {
        HeaviestForkRecord {
            slot: self.last_slot,
            bankhash: self.last_slot_hash.to_string(),
            total_active_stake: self.observed_stake,
            shred_version: self.shred_version as u32,
            wallclock: self.wallclock,
            from: self.from.to_string(),
        }
    }

    /// Whether two messages hold the same values.
    pub fn same(&self, other: &Self) -> (same: bool)
        ensures
            same == (*self == *other),
    {
        self.from == other.from && self.wallclock == other.wallclock && self.last_slot
            == other.last_slot && self.last_slot_hash == other.last_slot_hash
            && self.observed_stake == other.observed_stake && self.shred_version
            == other.shred_version
    }

    /// The message as text, for the operator.
    pub open spec fn text(self) -> Seq<char> {
        "RestartHeaviestFork { from: "@ + self.from.text() + ", wallclock: "@
            + crate::text::decimal(self.wallclock as nat) + ", last_slot: "@
            + crate::text::decimal(self.last_slot as nat) + ", last_slot_hash: "@
            + self.last_slot_hash.text() + ", observed_stake: "@ + crate::text::decimal(
            self.observed_stake as nat,
        ) + ", shred_version: "@ + crate::text::decimal(self.shred_version as nat) + " }"@
    }

    /// Writes the message as text, for the operator.
    pub fn describe(&self) -> (text: String)
        ensures
            text@ == self.text(),
    {
        let mut text = String::from_str("RestartHeaviestFork { from: ");
        text.append(self.from.to_string().as_str());
        text.append(", wallclock: ");
        crate::text::push_decimal(&mut text, self.wallclock);
        text.append(", last_slot: ");
        crate::text::push_decimal(&mut text, self.last_slot);
        text.append(", last_slot_hash: ");
        text.append(self.last_slot_hash.to_string().as_str());
        text.append(", observed_stake: ");
        crate::text::push_decimal(&mut text, self.observed_stake);
        text.append(", shred_version: ");
        crate::text::push_decimal(&mut text, self.shred_version as u64);
        text.append(" }");
        text
    }
}

/// What became of a message that was handed to the aggregate.
#[derive(Debug, PartialEq)]
pub enum HeaviestForkAggregateResult {
    /// The message is the one that the aggregate holds of this validator, or
    /// it is from the coordinator itself.
    AlreadyExists,
    /// The aggregate holds another message of this validator (first); the new
    /// one (second) was not taken in.
    DifferentVersionExists(RestartHeaviestFork, RestartHeaviestFork),
    /// The message was taken in; this is the record of it.
    Inserted(HeaviestForkRecord),
    /// The message is of another shred version.
    Malformed,
    /// The sender has no stake in the epoch of the heaviest fork.
    ZeroStakeIgnored,
}

/// The stake behind the block at `slot` with the hash `hash`, and 0 where
/// the list names no such block.
pub open spec fn block_stake(stakes: Seq<BlockStake>, slot: Slot, hash: crate::hash::Hash) -> u64 {
    match first_wanted(stakes, |block: BlockStake| block.slot == slot && block.hash == hash) {
        Some(block) => block.stake,
        None => 0,
    }
}

/// The sum of two stakes, held at the largest value where it would pass it.
pub open spec fn saturating_sum(a: u64, b: u64) -> u64 {
    if a + b > u64::MAX {
        u64::MAX
    } else {
        (a + b) as u64
    }
}

/// The place of the first block at `slot` with the hash `hash` among the
/// first `n` of a list, if there is one.
pub open spec fn block_index(
    stakes: Seq<BlockStake>,
    slot: Slot,
    hash: crate::hash::Hash,
    n: int,
) -> Option<int>
    decreases n,
{
    if n <= 0 {
        None
    } else {
        match block_index(stakes, slot, hash, n - 1) {
            Some(at) => Some(at),
            None => if stakes[n - 1].slot == slot && stakes[n - 1].hash == hash {
                Some(n - 1)
            } else {
                None
            },
        }
    }
}

/// The stakes behind the blocks once `stake` more stands behind the block at
/// `slot` with the hash `hash`.
pub open spec fn with_block_stake(
    stakes: Seq<BlockStake>,
    slot: Slot,
    hash: crate::hash::Hash,
    stake: u64,
) -> Seq<BlockStake> {
    match block_index(stakes, slot, hash, stakes.len() as int) {
        Some(at) => stakes.update(
            at,
            BlockStake { slot, hash, stake: saturating_sum(stakes[at].stake, stake) },
        ),
        None => stakes.push(BlockStake { slot, hash, stake }),
    }
}

/// Collects the heaviest forks that the validators publish, at the
/// coordinator, with the stakes of the epoch of its own heaviest fork.
pub struct HeaviestForkAggregate {
    pub my_shred_version: u16,
    pub my_pubkey: Pubkey,
    pub my_heaviest_fork_slot: Slot,
    pub my_heaviest_fork_hash: crate::hash::Hash,
    pub epoch_stakes: EpochStakes,
    pub heaviest_forks: Vec<RestartHeaviestFork>,
    pub block_stake_map: Vec<BlockStake>,
}

/// What a `HeaviestForkAggregate` holds, as mathematical values: contracts speak of it.
pub struct HeaviestForkAggregateView {
    pub my_shred_version: u16,
    pub my_pubkey: Pubkey,
    pub my_heaviest_fork_slot: Slot,
    pub my_heaviest_fork_hash: crate::hash::Hash,
    pub epoch_stakes: EpochStakes,
    pub heaviest_forks: Seq<RestartHeaviestFork>,
    pub block_stake_map: Seq<BlockStake>,
}

impl View for HeaviestForkAggregate {
    type V = HeaviestForkAggregateView;

    open spec fn view(&self) -> Self::V {
        HeaviestForkAggregateView {
            my_shred_version: self.my_shred_version,
            my_pubkey: self.my_pubkey,
            my_heaviest_fork_slot: self.my_heaviest_fork_slot,
            my_heaviest_fork_hash: self.my_heaviest_fork_hash,
            epoch_stakes: self.epoch_stakes,
            heaviest_forks: self.heaviest_forks@,
            block_stake_map: self.block_stake_map@,
        }
    }
}

/// What the aggregate makes of a message, before it changes anything.
pub enum Verdict {
    ZeroStakeIgnored,
    AlreadyExists,
    Malformed,
    DifferentVersionExists(RestartHeaviestFork),
    Inserted,
}

impl HeaviestForkAggregateView {
    /// The stake of a validator in the epoch of the heaviest fork, and 0
    /// where it has none.
    pub open spec fn stake_of(self, node: Pubkey) -> u64 {
        match self.epoch_stakes.stake_of(node) {
            Some(stake) => stake,
            None => 0,
        }
    }

    /// The message that the aggregate holds of `from`, if it holds one.
    pub open spec fn message_of(self, from: Pubkey) -> Option<RestartHeaviestFork> {
        first_wanted(self.heaviest_forks, |message: RestartHeaviestFork| message.from == from)
    }

    /// What the aggregate makes of a message: a sender without stake is
    /// ignored; the coordinator itself is known; another shred version is
    /// malformed; a sender that the aggregate has heard from repeats or
    /// contradicts itself; any other message is taken in.
    pub open spec fn verdict(self, message: RestartHeaviestFork) -> Verdict {
        if self.stake_of(message.from) == 0 {
            Verdict::ZeroStakeIgnored
        } else if message.from == self.my_pubkey {
            Verdict::AlreadyExists
        } else if message.shred_version != self.my_shred_version {
            Verdict::Malformed
        } else {
            match self.message_of(message.from) {
                Some(held) => if held == message {
                    Verdict::AlreadyExists
                } else {
                    Verdict::DifferentVersionExists(held)
                },
                None => Verdict::Inserted,
            }
        }
    }

    /// The aggregate after `message` has been taken in: the stake of the
    /// sender stands behind the block that the message names.
    pub open spec fn with_message(self, message: RestartHeaviestFork) -> Self {
        HeaviestForkAggregateView {
            heaviest_forks: self.heaviest_forks.push(message),
            block_stake_map: with_block_stake(
                self.block_stake_map,
                message.last_slot,
                message.last_slot_hash,
                self.stake_of(message.from),
            ),
            ..self
        }
    }

    /// The aggregate after `message` has been handed to it.
    pub open spec fn after(self, message: RestartHeaviestFork) -> Self {
        if self.verdict(message) is Inserted {
            self.with_message(message)
        } else {
            self
        }
    }

    /// The stake that agrees with the coordinator: its own, and that of the
    /// validators whose heaviest fork is the same block.
    pub open spec fn total_active_stake(self) -> u64 {
        block_stake(self.block_stake_map, self.my_heaviest_fork_slot, self.my_heaviest_fork_hash)
    }
}

/// The aggregate that the coordinator starts with: only its own stake stands
/// behind its own heaviest fork.
pub open spec fn initial_heaviest_fork_aggregate(
    my_shred_version: u16,
    epoch_stakes: EpochStakes,
    my_heaviest_fork_slot: Slot,
    my_heaviest_fork_hash: crate::hash::Hash,
    my_pubkey: Pubkey,
) -> HeaviestForkAggregateView {
    HeaviestForkAggregateView {
        my_shred_version,
        my_pubkey,
        my_heaviest_fork_slot,
        my_heaviest_fork_hash,
        epoch_stakes,
        heaviest_forks: Seq::empty(),
        block_stake_map: seq![
            BlockStake {
                slot: my_heaviest_fork_slot,
                hash: my_heaviest_fork_hash,
                stake: match epoch_stakes.stake_of(my_pubkey) {
                    Some(stake) => stake,
                    None => 0,
                },
            },
        ],
    }
}

/// Whether `result` and `after` are what handing `message` to the aggregate
/// `before` comes to.
pub open spec fn heaviest_fork_handed(
    before: HeaviestForkAggregateView,
    after: HeaviestForkAggregateView,
    message: RestartHeaviestFork,
    result: HeaviestForkAggregateResult,
) -> bool {
    &&& after == before.after(message)
    &&& match before.verdict(message) {
        Verdict::ZeroStakeIgnored => result is ZeroStakeIgnored,
        Verdict::AlreadyExists => result is AlreadyExists,
        Verdict::Malformed => result is Malformed,
        Verdict::DifferentVersionExists(held) => result
            == HeaviestForkAggregateResult::DifferentVersionExists(held, message),
        Verdict::Inserted => result matches HeaviestForkAggregateResult::Inserted(record)
            && record@ == message.record(),
    }
}

impl HeaviestForkAggregate {
    /// Starts the aggregate of a coordinator, with the stakes of the epoch of
    /// its heaviest fork.
    pub fn new(
        my_shred_version: u16,
        epoch_stakes: EpochStakes,
        my_heaviest_fork_slot: Slot,
        my_heaviest_fork_hash: crate::hash::Hash,
        my_pubkey: &Pubkey,
    ) -> (aggregate: Self)
        ensures
            aggregate@ == initial_heaviest_fork_aggregate(
                my_shred_version,
                epoch_stakes,
                my_heaviest_fork_slot,
                my_heaviest_fork_hash,
                *my_pubkey,
            ),
    {
        let my_stake = match epoch_stakes.node_id_to_stake(my_pubkey) {
            Some(stake) => stake,
            None => 0,
        };
        let mut block_stake_map: Vec<BlockStake> = Vec::new();
        block_stake_map.push(
            BlockStake { slot: my_heaviest_fork_slot, hash: my_heaviest_fork_hash, stake: my_stake },
        );
        let aggregate = HeaviestForkAggregate {
            my_shred_version,
            my_pubkey: *my_pubkey,
            my_heaviest_fork_slot,
            my_heaviest_fork_hash,
            epoch_stakes,
            heaviest_forks: Vec::new(),
            block_stake_map,
        };
        proof {
            let expected = initial_heaviest_fork_aggregate(
                my_shred_version,
                epoch_stakes,
                my_heaviest_fork_slot,
                my_heaviest_fork_hash,
                *my_pubkey,
            );
        }
        aggregate
    }

    /// Puts `stake` more behind the block at `slot` with the hash `hash`.
    fn add_block_stake(&mut self, slot: Slot, hash: crate::hash::Hash, stake: u64)
        ensures
            final(self)@ == (HeaviestForkAggregateView {
                block_stake_map: with_block_stake(old(self)@.block_stake_map, slot, hash, stake),
                ..old(self)@
            }),
    {
        let mut i: usize = 0;
        while i < self.block_stake_map.len()
            invariant
                i <= self.block_stake_map@.len(),
                *self == *old(self),
                block_index(self.block_stake_map@, slot, hash, i as int) is None,
            decreases self.block_stake_map@.len() - i,
        {
            let block = self.block_stake_map[i];
            if block.slot == slot && block.hash == hash {
                proof {
                    lemma_block_index(
                        self.block_stake_map@,
                        slot,
                        hash,
                        i as int,
                        self.block_stake_map@.len() as int,
                    );
                }
                self.block_stake_map[i] = BlockStake {
                    slot,
                    hash,
                    stake: block.stake.saturating_add(stake),
                };
                return ;
            }
            i += 1;
        }
        self.block_stake_map.push(BlockStake { slot, hash, stake });
    }

    /// Hands a message to the aggregate.
    pub fn aggregate(&mut self, received_heaviest_fork: RestartHeaviestFork) -> (result:
        HeaviestForkAggregateResult)
        ensures
            heaviest_fork_handed(old(self)@, final(self)@, received_heaviest_fork, result),
    {
        let from = received_heaviest_fork.from;
        let sender_stake = match self.epoch_stakes.node_id_to_stake(&from) {
            Some(stake) => stake,
            None => 0,
        };
        if sender_stake == 0 {
            return HeaviestForkAggregateResult::ZeroStakeIgnored;
        }
        if from == self.my_pubkey {
            return HeaviestForkAggregateResult::AlreadyExists;
        }
        if received_heaviest_fork.shred_version != self.my_shred_version {
            return HeaviestForkAggregateResult::Malformed;
        }
        let ghost wanted = |message: RestartHeaviestFork| message.from == from;
        let mut i: usize = 0;
        while i < self.heaviest_forks.len()
            invariant
                i <= self.heaviest_forks@.len(),
                *self == *old(self),
                from == received_heaviest_fork.from,
                old(self)@.stake_of(from) != 0,
                from != self.my_pubkey,
                received_heaviest_fork.shred_version == self.my_shred_version,
                wanted == |message: RestartHeaviestFork| message.from == from,
                forall|j: int| 0 <= j < i ==> !wanted(#[trigger] self.heaviest_forks@[j]),
            decreases self.heaviest_forks@.len() - i,
        {
            let held = self.heaviest_forks[i];
            if held.from == from {
                proof {
                    lemma_first_wanted(self.heaviest_forks@, wanted, i as int);
                }
                if held.same(&received_heaviest_fork) {
                    return HeaviestForkAggregateResult::AlreadyExists;
                } else {
                    return HeaviestForkAggregateResult::DifferentVersionExists(
                        held,
                        received_heaviest_fork,
                    );
                }
            }
            i += 1;
        }
        proof {
            lemma_none_wanted(self.heaviest_forks@, wanted);
        }
        let record = received_heaviest_fork.to_record();
        self.heaviest_forks.push(received_heaviest_fork);
        self.add_block_stake(
            received_heaviest_fork.last_slot,
            received_heaviest_fork.last_slot_hash,
            sender_stake,
        );
        HeaviestForkAggregateResult::Inserted(record)
    }

    /// The stake that agrees with the coordinator.
    pub fn total_active_stake(&self) -> (stake: u64)
        ensures
            stake == self@.total_active_stake(),
    {
        let ghost wanted = |block: BlockStake|
            block.slot == self.my_heaviest_fork_slot && block.hash == self.my_heaviest_fork_hash;
        let mut i: usize = 0;
        while i < self.block_stake_map.len()
            invariant
                i <= self.block_stake_map@.len(),
                wanted == |block: BlockStake|
                    block.slot == self.my_heaviest_fork_slot && block.hash
                        == self.my_heaviest_fork_hash,
                forall|j: int| 0 <= j < i ==> !wanted(#[trigger] self.block_stake_map@[j]),
            decreases self.block_stake_map@.len() - i,
        {
            let block = self.block_stake_map[i];
            if block.slot == self.my_heaviest_fork_slot && block.hash == self.my_heaviest_fork_hash {
                proof {
                    lemma_first_wanted(self.block_stake_map@, wanted, i as int);
                }
                return block.stake;
            }
            i += 1;
        }
        proof {
            lemma_none_wanted(self.block_stake_map@, wanted);
        }
        0
    }
}

/// The first block at `slot` with the hash `hash` stays the first when more
/// of the list is looked at.
pub proof fn lemma_block_index(
    stakes: Seq<BlockStake>,
    slot: Slot,
    hash: crate::hash::Hash,
    at: int,
    n: int,
)
    requires
        0 <= at < n <= stakes.len(),
        stakes[at].slot == slot,
        stakes[at].hash == hash,
        block_index(stakes, slot, hash, at) is None,
    ensures
        block_index(stakes, slot, hash, n) == Some(at),
    decreases n,
{
    if at < n - 1 {
        lemma_block_index(stakes, slot, hash, at, n - 1);
    }
}

/// The message that a record on disk stands for, or the reason why it
/// stands for none.
pub open spec fn message_of_record(record: HeaviestForkRecordView) -> Result<
    RestartHeaviestFork,
    RecordError,
> {
    match pubkey_from_base58(record.from) {
        Err(e) => Err(RecordError::MalformedPubkey(e)),
        Ok(from) => match hash_from_base58(record.bankhash) {
            Err(e) => Err(RecordError::MalformedHash(e)),
            Ok(last_slot_hash) => Ok(
                RestartHeaviestFork {
                    from,
                    wallclock: record.wallclock,
                    last_slot: record.slot,
                    last_slot_hash,
                    observed_stake: record.total_active_stake,
                    shred_version: record.shred_version as u16,
                },
            ),
        },
    }
}

impl HeaviestForkAggregateView {
    /// The aggregate after a record on disk has been handed to it.
    pub open spec fn with_record(self, record: HeaviestForkRecordView) -> Self {
        match message_of_record(record) {
            Ok(message) => self.after(message),
            Err(_) => self,
        }
    }
}

/// The aggregate after the first `n` records have been handed to it.
pub open spec fn records_replayed(
    aggregate: HeaviestForkAggregateView,
    records: Seq<HeaviestForkRecordView>,
    n: int,
) -> HeaviestForkAggregateView
    decreases n,
{
    if n <= 0 {
        aggregate
    } else {
        records_replayed(aggregate, records, n - 1).with_record(records[n - 1])
    }
}

impl HeaviestForkAggregate {
    /// Hands a record that was read from disk to the aggregate, as
    /// `aggregate` would take the message that it stands for.
    pub fn aggregate_from_record(&mut self, record: &HeaviestForkRecord) -> (r: Result<
        HeaviestForkAggregateResult,
        RecordError,
    >)
        ensures
            final(self)@ == old(self)@.with_record(record@),
            match r {
                Ok(result) => message_of_record(record@) matches Ok(message)
                    && heaviest_fork_handed(old(self)@, final(self)@, message, result),
                Err(e) => message_of_record(record@) == Err::<RestartHeaviestFork, RecordError>(e),
            },
    {
        let from = match Pubkey::from_str(record.from.as_str()) {
            Ok(from) => from,
            Err(e) => {
                return Err(RecordError::MalformedPubkey(e));
            },
        };
        let bankhash = match crate::hash::Hash::from_str(record.bankhash.as_str()) {
            Ok(hash) => hash,
            Err(e) => {
                return Err(RecordError::MalformedHash(e));
            },
        };
        let restart_heaviest_fork = RestartHeaviestFork {
            from,
            wallclock: record.wallclock,
            last_slot: record.slot,
            last_slot_hash: bankhash,
            observed_stake: record.total_active_stake,
            shred_version: crate::state::narrow_shred_version(record.shred_version),
        };
        Ok(self.aggregate(restart_heaviest_fork))
    }
}

/// Why the coordinator cannot begin to collect the heaviest forks.
#[derive(Debug, PartialEq)]
pub enum HeaviestForkAggregateError {
    /// The record on disk does not name the heaviest fork of this validator.
    MalformedProgress(WenRestartError),
    /// The bank hash of that fork is not the base58 form of a hash.
    MalformedHash(HashParseError),
    /// The schedule gives the slot of that fork no epoch.
    MissingEpoch(Slot),
    /// The root bank does not know the stakes of the epoch of that fork.
    MissingEpochStakes(Epoch),
}

/// The aggregate that the coordinator begins with, before the records on
/// disk are handed to it, or the reason why it cannot begin: the record that
/// is malformed, the bank hash that cannot be read, the slot without an epoch,
/// or the epoch without stakes, in this order, and nothing in the other
/// places.
pub open spec fn coordinator_aggregate(
    root_bank: RootBank,
    config: WenRestartConfig,
    progress: WenRestartProgressView,
) -> Result<
    HeaviestForkAggregateView,
    (Option<WenRestartErrorView>, Option<HashParseError>, Option<Slot>, Epoch),
> {
    match progress.my_heaviest_fork {
        None => Err(
            (
                Some(
                    WenRestartErrorView::MalformedProgress(
                        RestartState::HeaviestFork,
                        "my_heaviest_fork"@,
                    ),
                ),
                None,
                None,
                0,
            ),
        ),
        Some(fork) => match hash_from_base58(fork.bankhash) {
            Err(e) => Err((None, Some(e), None, 0)),
            Ok(hash) => match root_bank.epoch_at(fork.slot) {
                None => Err((None, None, Some(fork.slot), 0)),
                Some(epoch) => match root_bank.stakes_of(epoch) {
                    None => Err((None, None, None, epoch)),
                    Some(stakes) => Ok(
                        initial_heaviest_fork_aggregate(
                            config.my_shred_version,
                            stakes,
                            fork.slot,
                            hash,
                            config.my_pubkey,
                        ),
                    ),
                },
            },
        },
    }
}

/// The record of an aggregate that has heard from nobody.
pub open spec fn empty_aggregate_record() -> HeaviestForkAggregateRecordView {
    HeaviestForkAggregateRecordView { received: Seq::empty(), total_active_stake: 0 }
}

/// Whether `r` and `after` are what beginning to collect the heaviest forks
/// comes to: the aggregate of the coordinator with every record on disk handed
/// to it, or, where the disk holds none yet, an empty place for them.
pub open spec fn collection_started(
    r: Result<HeaviestForkAggregate, HeaviestForkAggregateError>,
    after: WenRestartProgressView,
    root_bank: RootBank,
    config: WenRestartConfig,
    before: WenRestartProgressView,
) -> bool {
    match coordinator_aggregate(root_bank, config, before) {
        Err((restart, hash, slot, epoch)) => {
            &&& after == before
            &&& match r {
                Ok(_) => false,
                Err(HeaviestForkAggregateError::MalformedProgress(e)) => restart == Some(e@),
                Err(HeaviestForkAggregateError::MalformedHash(e)) => restart is None && hash
                    == Some(e),
                Err(HeaviestForkAggregateError::MissingEpoch(s)) => restart is None && hash
                    is None && slot == Some(s),
                Err(HeaviestForkAggregateError::MissingEpochStakes(e)) => restart is None && hash
                    is None && slot is None && epoch == e,
            }
        },
        Ok(initial) => {
            &&& r matches Ok(aggregate)
            &&& match before.heaviest_fork_aggregate {
                Some(record) => {
                    &&& after == before
                    &&& aggregate@ == records_replayed(
                        initial,
                        record.received,
                        record.received.len() as int,
                    )
                },
                None => {
                    &&& aggregate@ == initial
                    &&& after == (WenRestartProgressView {
                        heaviest_fork_aggregate: Some(empty_aggregate_record()),
                        ..before
                    })
                },
            }
        },
    }
}

/// Begins or resumes the collection of heaviest forks at the coordinator.
pub fn start_aggregate_restart_heaviest_fork(
    root_bank: RootBank,
    config: &WenRestartConfig,
    progress: &mut WenRestartProgress,
) -> (r: Result<HeaviestForkAggregate, HeaviestForkAggregateError>)
    ensures
        collection_started(r, final(progress)@, root_bank, *config, old(progress)@),
{
    let (heaviest_fork_slot, parsed) = match &progress.my_heaviest_fork {
        Some(my_heaviest_fork) => (
            my_heaviest_fork.slot,
            crate::hash::Hash::from_str(my_heaviest_fork.bankhash.as_str()),
        ),
        None => {
            return Err(
                HeaviestForkAggregateError::MalformedProgress(
                    WenRestartError::MalformedProgress(
                        RestartState::HeaviestFork,
                        String::from_str("my_heaviest_fork"),
                    ),
                ),
            );
        },
    };
    let heaviest_fork_hash = match parsed {
        Ok(hash) => hash,
        Err(e) => {
            return Err(HeaviestForkAggregateError::MalformedHash(e));
        },
    };
    // The stakes are those of the epoch of the heaviest fork.
    let epoch = match root_bank.get_epoch(heaviest_fork_slot) {
        Some(epoch) => epoch,
        None => {
            return Err(HeaviestForkAggregateError::MissingEpoch(heaviest_fork_slot));
        },
    };
    let ghost wanted = |stakes: EpochStakes| stakes.epoch == epoch;
    let mut bank = root_bank;
    let mut i: usize = 0;
    while i < bank.epoch_stakes.len()
        invariant
            i <= bank.epoch_stakes@.len(),
            bank == root_bank,
            wanted == |stakes: EpochStakes| stakes.epoch == epoch,
            forall|j: int| 0 <= j < i ==> !wanted(#[trigger] bank.epoch_stakes@[j]),
        ensures
            i < bank.epoch_stakes@.len() ==> wanted(bank.epoch_stakes@[i as int]),
        decreases bank.epoch_stakes@.len() - i,
    {
        if bank.epoch_stakes[i].epoch == epoch {
            break ;
        }
        i += 1;
    }
    if i >= bank.epoch_stakes.len() {
        proof {
            lemma_none_wanted(bank.epoch_stakes@, wanted);
        }
        return Err(HeaviestForkAggregateError::MissingEpochStakes(epoch));
    }
    proof {
        lemma_first_wanted(bank.epoch_stakes@, wanted, i as int);
    }
    let epoch_stakes = bank.epoch_stakes.remove(i);
    let mut heaviest_fork_aggregate = HeaviestForkAggregate::new(
        config.my_shred_version,
        epoch_stakes,
        heaviest_fork_slot,
        heaviest_fork_hash,
        &config.my_pubkey,
    );
    match &progress.heaviest_fork_aggregate {
        Some(aggregate_record) => {
            let ghost initial = heaviest_fork_aggregate@;
            let ghost records = heaviest_fork_views(aggregate_record.received@);
            let mut k: usize = 0;
            while k < aggregate_record.received.len()
                invariant
                    k <= aggregate_record.received@.len(),
                    records == heaviest_fork_views(aggregate_record.received@),
                    heaviest_fork_aggregate@ == records_replayed(initial, records, k as int),
                decreases aggregate_record.received@.len() - k,
            {
                // One malformed record does not end the restart.
                let _ = heaviest_fork_aggregate.aggregate_from_record(&aggregate_record.received[k]);
                k += 1;
            }
        },
        None => {
            progress.heaviest_fork_aggregate = Some(
                HeaviestForkAggregateRecord { received: Vec::new(), total_active_stake: 0 },
            );
            assert(progress@.heaviest_fork_aggregate.unwrap().received =~= Seq::empty());
        },
    }
    Ok(heaviest_fork_aggregate)
}

/// The coordinator tells the operator every so many seconds which stake
/// stands behind which block.
pub const COORDINATOR_STAT_PRINT_INTERVAL_SECONDS: u64 = 10;

/// Whether it is time to tell the operator again which stake stands behind
/// which block, so many whole seconds after the last time.
pub fn is_time_to_print_stats(seconds_since_last_print: u64) -> (yes: bool)
    ensures
        yes == (seconds_since_last_print > COORDINATOR_STAT_PRINT_INTERVAL_SECONDS),
{
    seconds_since_last_print > COORDINATOR_STAT_PRINT_INTERVAL_SECONDS
}

/// The aggregate and the record on disk, whether the record has to be
/// written, and the highest stake seen to agree with the coordinator.
pub struct Collected {
    pub aggregate: HeaviestForkAggregateView,
    pub progress: WenRestartProgressView,
    pub changed: bool,
    pub total_active_stake: u64,
}

/// The record on disk with the record of a message added to what the
/// coordinator has received.
pub open spec fn with_received(
    progress: WenRestartProgressView,
    record: HeaviestForkRecordView,
) -> WenRestartProgressView {
    match progress.heaviest_fork_aggregate {
        Some(aggregate_record) => WenRestartProgressView {
            heaviest_fork_aggregate: Some(
                HeaviestForkAggregateRecordView {
                    received: aggregate_record.received.push(record),
                    ..aggregate_record
                },
            ),
            ..progress
        },
        None => progress,
    }
}

/// The record on disk with the stake that agrees with the coordinator.
pub open spec fn with_total_active_stake(
    progress: WenRestartProgressView,
    stake: u64,
) -> WenRestartProgressView {
    match progress.heaviest_fork_aggregate {
        Some(aggregate_record) => WenRestartProgressView {
            heaviest_fork_aggregate: Some(
                HeaviestForkAggregateRecordView { total_active_stake: stake, ..aggregate_record },
            ),
            ..progress
        },
        None => progress,
    }
}

/// The state after one message: a message that is taken in is recorded, one
/// that contradicts what its sender said before is recorded as a conflict,
/// with both messages as text, and any other changes nothing.
pub open spec fn heaviest_fork_taken(before: Collected, message: RestartHeaviestFork) -> Collected {
    match before.aggregate.verdict(message) {
        Verdict::Inserted => Collected {
            aggregate: before.aggregate.with_message(message),
            progress: with_received(before.progress, message.record()),
            changed: true,
            total_active_stake: before.total_active_stake,
        },
        Verdict::DifferentVersionExists(held) => {
            let progress = WenRestartProgressView {
                conflict_message: before.progress.conflict_message.insert(
                    message.from.text(),
                    ConflictMessageView { old_message: held.text(), new_message: message.text() },
                ),
                ..before.progress
            };
            Collected {
                aggregate: before.aggregate,
                progress,
                changed: before.changed || progress != before.progress,
                total_active_stake: before.total_active_stake,
            }
        },
        _ => before,
    }
}

/// The state after the first `n` messages.
pub open spec fn heaviest_forks_taken(
    before: Collected,
    messages: Seq<RestartHeaviestFork>,
    n: int,
) -> Collected
    decreases n,
{
    if n <= 0 {
        before
    } else {
        heaviest_fork_taken(heaviest_forks_taken(before, messages, n - 1), messages[n - 1])
    }
}

/// The state at the end of a tick: where more stake agrees with the
/// coordinator than was seen before, the record on disk says so.
pub open spec fn stake_recorded(before: Collected) -> Collected {
    let current = before.aggregate.total_active_stake();
    if current > before.total_active_stake {
        let progress = with_total_active_stake(before.progress, current);
        Collected {
            aggregate: before.aggregate,
            progress,
            changed: before.changed || progress != before.progress,
            total_active_stake: current,
        }
    } else {
        before
    }
}

/// What a tick of the coordinator ends with.
#[derive(Clone, Copy, Debug, PartialEq, Eq)]
pub struct HeaviestForkTick {
    /// Whether the caller has to write the record to disk: at the first
    /// tick, and whenever the record has changed.
    pub changed: bool,
    /// The highest stake seen to agree with the coordinator.
    pub total_active_stake: u64,
}

/// The record on disk with a place for what the coordinator receives, made
/// where the record has none.
pub open spec fn with_place(progress: WenRestartProgressView) -> WenRestartProgressView {
    match progress.heaviest_fork_aggregate {
        Some(_) => progress,
        None => WenRestartProgressView {
            heaviest_fork_aggregate: Some(empty_aggregate_record()),
            ..progress
        },
    }
}

/// Whether `r`, `aggregate` and `progress` are what a tick of the
/// coordinator comes to. A record that does not name the heaviest fork of
/// this validator is malformed, and nothing changes. Otherwise the record is
/// given a place for what is received where it has none. A coordinator that
/// is about to exit then takes nothing in and ends the collection: there is
/// no tick. Any other takes the messages in, in their order, and records the
/// stake that agrees with it where it has grown beyond the highest seen so
/// far.
pub open spec fn tick_collected(
    r: Result<Option<HeaviestForkTick>, WenRestartError>,
    aggregate: HeaviestForkAggregateView,
    progress: WenRestartProgressView,
    before: Collected,
    messages: Seq<RestartHeaviestFork>,
    exit: bool,
) -> bool {
    if before.progress.my_heaviest_fork is None {
        &&& r matches Err(e)
        &&& e@ == WenRestartErrorView::MalformedProgress(
            RestartState::HeaviestFork,
            "my_heaviest_fork"@,
        )
        &&& aggregate == before.aggregate
        &&& progress == before.progress
    } else {
        let placed = with_place(before.progress);
        if exit {
            &&& r == Ok::<Option<HeaviestForkTick>, WenRestartError>(None)
            &&& aggregate == before.aggregate
            &&& progress == placed
        } else {
            &&& r matches Ok(Some(ended))
            &&& (Collected {
                aggregate,
                progress,
                changed: ended.changed,
                total_active_stake: ended.total_active_stake,
            }) == stake_recorded(
                heaviest_forks_taken(
                    (Collected {
                        progress: placed,
                        changed: before.changed || before.progress.heaviest_fork_aggregate is None,
                        ..before
                    }),
                    messages,
                    messages.len() as int,
                ),
            )
        }
    }
}

/// One tick of the collection of heaviest forks at the coordinator: takes in
/// what gossip has brought since the last tick. `total_active_stake` is the
/// highest stake seen to agree with the coordinator so far, 0 at the first
/// tick; `first_tick` says that the record has not been written by the
/// collection yet.
pub fn aggregate_restart_heaviest_fork(
    aggregate: &mut HeaviestForkAggregate,
    new_messages: &Vec<RestartHeaviestFork>,
    total_active_stake: u64,
    first_tick: bool,
    exit: bool,
    progress: &mut WenRestartProgress,
) -> (tick: Result<Option<HeaviestForkTick>, WenRestartError>)
    ensures
        tick is Ok ==> final(progress).heaviest_fork_aggregate is Some,
        final(progress)@.state == old(progress)@.state,
        tick_collected(
            tick,
            final(aggregate)@,
            final(progress)@,
            (Collected {
                aggregate: old(aggregate)@,
                progress: old(progress)@,
                changed: first_tick,
                total_active_stake,
            }),
            new_messages@,
            exit,
        ),
{
    if progress.my_heaviest_fork.is_none() {
        return Err(
            WenRestartError::MalformedProgress(
                RestartState::HeaviestFork,
                String::from_str("my_heaviest_fork"),
            ),
        );
    }
    let mut changed = first_tick;
    if progress.heaviest_fork_aggregate.is_none() {
        progress.heaviest_fork_aggregate = Some(
            HeaviestForkAggregateRecord { received: Vec::new(), total_active_stake: 0 },
        );
        assert(progress@.heaviest_fork_aggregate.unwrap().received =~= Seq::empty());
        changed = true;
    }
    if exit {
        return Ok(None);
    }
    let ghost start = Collected {
        aggregate: old(aggregate)@,
        progress: progress@,
        changed,
        total_active_stake,
    };
    let mut i: usize = 0;
    while i < new_messages.len()
        invariant
            i <= new_messages@.len(),
            !exit,
            progress.heaviest_fork_aggregate is Some,
            progress@.state == old(progress)@.state,
            (Collected { aggregate: aggregate@, progress: progress@, changed, total_active_stake })
                == heaviest_forks_taken(start, new_messages@, i as int),
        decreases new_messages@.len() - i,
    {
        let new_heaviest_fork = new_messages[i];
        let from = new_heaviest_fork.from.to_string();
        let ghost before = Collected {
            aggregate: aggregate@,
            progress: progress@,
            changed,
            total_active_stake,
        };
        match aggregate.aggregate(new_heaviest_fork) {
            HeaviestForkAggregateResult::Inserted(record) => {
                match &mut progress.heaviest_fork_aggregate {
                    Some(aggregate_record) => {
                        let ghost received = heaviest_fork_views(aggregate_record.received@);
                        aggregate_record.received.push(record);
                        assert(heaviest_fork_views(aggregate_record.received@) =~= received.push(
                            record@,
                        ));
                    },
                    None => {},
                }
                changed = true;
            },
            HeaviestForkAggregateResult::DifferentVersionExists(held, refused) => {
                let conflict = ConflictMessage {
                    old_message: held.describe(),
                    new_message: refused.describe(),
                };
                let same = match progress.conflict_message.get(&from) {
                    Some(known) => known.old_message == conflict.old_message && known.new_message
                        == conflict.new_message,
                    None => false,
                };
                let ghost conflicts = progress.conflict_message@;
                progress.conflict_message.insert(from, conflict);
                proof {
                    if same {
                        assert(progress.conflict_message@ =~= conflicts);
                    }
                }
                if !same {
                    changed = true;
                }
            },
            HeaviestForkAggregateResult::ZeroStakeIgnored => {},
            HeaviestForkAggregateResult::AlreadyExists => {},
            HeaviestForkAggregateResult::Malformed => {},
        }
        proof {
            assert((Collected {
                aggregate: aggregate@,
                progress: progress@,
                changed,
                total_active_stake,
            }) == heaviest_fork_taken(before, new_messages@[i as int]));
        }
        i += 1;
    }
    let current_total_active_stake = aggregate.total_active_stake();
    if current_total_active_stake > total_active_stake {
        match &mut progress.heaviest_fork_aggregate {
            Some(aggregate_record) => {
                if aggregate_record.total_active_stake != current_total_active_stake {
                    changed = true;
                }
                aggregate_record.total_active_stake = current_total_active_stake;
            },
            None => {},
        }
        Ok(Some(HeaviestForkTick { changed, total_active_stake: current_total_active_stake }))
    } else {
        Ok(Some(HeaviestForkTick { changed, total_active_stake }))
    }
}

} // verus!
