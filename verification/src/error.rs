//! The ways in which a restart can fail.

use crate::progress::{LastVotedForkSlotsRecord, LastVotedForkSlotsRecordView, RestartState};
use crate::text::{
    decimal, decimal_list, optional_decimal, push_decimal, push_decimal_list,
    push_optional_decimal,
};
use solana_clock::Slot;
use vstd::prelude::*;

verus! {

/// The stake that stands behind one block: its slot, its hash and the stake.
#[derive(Clone, Copy, Debug, PartialEq, Eq)]
pub struct BlockStake {
    pub slot: Slot,
    pub hash: crate::hash::Hash,
    pub stake: u64,
}

/// Why a restart stopped.
#[derive(Debug, PartialEq)]
pub enum WenRestartError {
    /// The bank hash that this validator computed for a slot (first) is not
    /// the one that the coordinator published (second).
    BankHashMismatch(Slot, crate::hash::Hash, crate::hash::Hash),
    BlockNotFound(Slot),
    BlockNotFull(Slot),
    BlockNotFrozenAfterReplay(Slot, Option<String>),
    /// The block at a slot is linked to the second value where the third was
    /// expected as its parent.
    BlockNotLinkedToExpectedParent(Slot, Option<Slot>, Slot),
    /// A slot with its stake, then its parent with a smaller one.
    ChildStakeLargerThanParent(Slot, u64, Slot, u64),
    Exiting,
    /// The slot of the intended snapshot, the later slot of one that exists,
    /// and the directory that holds it.
    FutureSnapshotExists(Slot, Slot, String),
    GenerateSnapshotWhenOneExists(Slot, String),
    GenerateSnapshotWhenDisabled,
    /// The slot of the coordinator, and the slot that is not on its fork.
    HeaviestForkOnLeaderOnDifferentFork(Slot, Slot),
    MalformedLastVotedForkSlotsProtobuf(Option<LastVotedForkSlotsRecord>),
    /// The phase of the record, and the field that it lacks.
    MalformedProgress(RestartState, String),
    MissingLastVotedForkSlots,
    MissingSnapshotInProtobuf,
    NotEnoughStakeAgreeingWithUs(Slot, crate::hash::Hash, Vec<BlockStake>),
    UnexpectedState(RestartState),
}

/// What a `WenRestartError` holds, as mathematical values: contracts speak of it.
pub enum WenRestartErrorView {
    BankHashMismatch(Slot, crate::hash::Hash, crate::hash::Hash),
    BlockNotFound(Slot),
    BlockNotFull(Slot),
    BlockNotFrozenAfterReplay(Slot, Option<Seq<char>>),
    BlockNotLinkedToExpectedParent(Slot, Option<Slot>, Slot),
    ChildStakeLargerThanParent(Slot, u64, Slot, u64),
    Exiting,
    FutureSnapshotExists(Slot, Slot, Seq<char>),
    GenerateSnapshotWhenOneExists(Slot, Seq<char>),
    GenerateSnapshotWhenDisabled,
    HeaviestForkOnLeaderOnDifferentFork(Slot, Slot),
    MalformedLastVotedForkSlotsProtobuf(Option<LastVotedForkSlotsRecordView>),
    MalformedProgress(RestartState, Seq<char>),
    MissingLastVotedForkSlots,
    MissingSnapshotInProtobuf,
    NotEnoughStakeAgreeingWithUs(Slot, crate::hash::Hash, Seq<BlockStake>),
    UnexpectedState(RestartState),
}

impl View for WenRestartError {
    type V = WenRestartErrorView;

    open spec fn view(&self) -> Self::V {
        match *self {
            WenRestartError::BankHashMismatch(slot, mine, theirs) => {
                WenRestartErrorView::BankHashMismatch(slot, mine, theirs)
            },
            WenRestartError::BlockNotFound(slot) => WenRestartErrorView::BlockNotFound(slot),
            WenRestartError::BlockNotFull(slot) => WenRestartErrorView::BlockNotFull(slot),
            WenRestartError::BlockNotFrozenAfterReplay(slot, why) => {
                WenRestartErrorView::BlockNotFrozenAfterReplay(
                    slot,
                    match why {
                        Some(text) => Some(text@),
                        None => None,
                    },
                )
            },
            WenRestartError::BlockNotLinkedToExpectedParent(slot, parent, expected) => {
                WenRestartErrorView::BlockNotLinkedToExpectedParent(slot, parent, expected)
            },
            WenRestartError::ChildStakeLargerThanParent(slot, stake, parent, parent_stake) => {
                WenRestartErrorView::ChildStakeLargerThanParent(slot, stake, parent, parent_stake)
            },
            WenRestartError::Exiting => WenRestartErrorView::Exiting,
            WenRestartError::FutureSnapshotExists(slot, highest, directory) => {
                WenRestartErrorView::FutureSnapshotExists(slot, highest, directory@)
            },
            WenRestartError::GenerateSnapshotWhenOneExists(slot, directory) => {
                WenRestartErrorView::GenerateSnapshotWhenOneExists(slot, directory@)
            },
            WenRestartError::GenerateSnapshotWhenDisabled => {
                WenRestartErrorView::GenerateSnapshotWhenDisabled
            },
            WenRestartError::HeaviestForkOnLeaderOnDifferentFork(theirs, missing) => {
                WenRestartErrorView::HeaviestForkOnLeaderOnDifferentFork(theirs, missing)
            },
            WenRestartError::MalformedLastVotedForkSlotsProtobuf(record) => {
                WenRestartErrorView::MalformedLastVotedForkSlotsProtobuf(
                    match record {
                        Some(r) => Some(r@),
                        None => None,
                    },
                )
            },
            WenRestartError::MalformedProgress(state, missing) => {
                WenRestartErrorView::MalformedProgress(state, missing@)
            },
            WenRestartError::MissingLastVotedForkSlots => {
                WenRestartErrorView::MissingLastVotedForkSlots
            },
            WenRestartError::MissingSnapshotInProtobuf => {
                WenRestartErrorView::MissingSnapshotInProtobuf
            },
            WenRestartError::NotEnoughStakeAgreeingWithUs(slot, hash, stakes) => {
                WenRestartErrorView::NotEnoughStakeAgreeingWithUs(slot, hash, stakes@)
            },
            WenRestartError::UnexpectedState(state) => WenRestartErrorView::UnexpectedState(state),
        }
    }
}

/// The text that `{:?}` writes for a text: in double quotes, with what
/// cannot stand between them escaped.
pub uninterp spec fn quoted(text: Seq<char>) -> Seq<char>;

/// Formats a text with `{:?}` by `format`. Trusted: what is written is a
/// function of the text alone.
#[verifier::external_body]
fn quote(text: &str) -> (written: String)
    ensures
        written@ == quoted(text@),
{
    format!("{:?}", text)
}

/// The name of a phase.
pub open spec fn state_name(state: RestartState) -> Seq<char> {
    match state {
        RestartState::Init => "Init"@,
        RestartState::LastVotedForkSlots => "LastVotedForkSlots"@,
        RestartState::HeaviestFork => "HeaviestFork"@,
        RestartState::GenerateSnapshot => "GenerateSnapshot"@,
        RestartState::Done => "Done"@,
    }
}

/// The name of a phase.
pub fn state_str(state: RestartState) -> (name: &'static str)
    ensures
        name@ == state_name(state),
{
    match state {
        RestartState::Init => "Init",
        RestartState::LastVotedForkSlots => "LastVotedForkSlots",
        RestartState::HeaviestFork => "HeaviestFork",
        RestartState::GenerateSnapshot => "GenerateSnapshot",
        RestartState::Done => "Done",
    }
}

/// A record of a last voted fork as text.
pub open spec fn record_text(record: LastVotedForkSlotsRecordView) -> Seq<char> {
    "LastVotedForkSlotsRecord { last_voted_fork_slots: "@ + decimal_list(
        record.last_voted_fork_slots,
    ) + ", last_vote_bankhash: "@ + quoted(record.last_vote_bankhash) + ", shred_version: "@
        + decimal(record.shred_version as nat) + ", wallclock: "@ + decimal(
        record.wallclock as nat,
    ) + " }"@
}

/// A text that may be missing as text: `None`, or the quoted text in `Some(`
/// and `)`.
pub open spec fn optional_quoted(text: Option<Seq<char>>) -> Seq<char> {
    match text {
        Some(t) => "Some("@ + quoted(t) + ")"@,
        None => "None"@,
    }
}

/// A record that may be missing as text.
pub open spec fn optional_record_text(record: Option<LastVotedForkSlotsRecordView>) -> Seq<char> {
    match record {
        Some(r) => "Some("@ + record_text(r) + ")"@,
        None => "None"@,
    }
}

/// The first `n` of a list of block stakes as text, with a comma and a space
/// between each two.
pub open spec fn block_stakes_text(stakes: Seq<BlockStake>, n: int) -> Seq<char>
    decreases n,
{
    if n <= 0 {
        Seq::empty()
    } else {
        block_stakes_text(stakes, n - 1) + (if n == 1 {
            ""@
        } else {
            ", "@
        }) + "("@ + decimal(stakes[n - 1].slot as nat) + ", "@ + stakes[n - 1].hash.text() + "): "@
            + decimal(stakes[n - 1].stake as nat)
    }
}

/// What an error says to the operator.
pub open spec fn error_message(e: WenRestartErrorView) -> Seq<char> {
    match e {
        WenRestartErrorView::BankHashMismatch(slot, expected, actual) => {
            "Bank hash mismatch for slot: "@ + decimal(slot as nat) + " expected: "@
                + expected.text() + " actual: "@ + actual.text()
        },
        WenRestartErrorView::BlockNotFound(slot) => "Block not found: "@ + decimal(slot as nat),
        WenRestartErrorView::BlockNotFull(slot) => "Block not full: "@ + decimal(slot as nat),
        WenRestartErrorView::BlockNotFrozenAfterReplay(slot, why) => {
            "Block not frozen after replay: "@ + decimal(slot as nat) + " "@ + optional_quoted(why)
        },
        WenRestartErrorView::BlockNotLinkedToExpectedParent(slot, parent, expected_parent) => {
            "Block "@ + decimal(slot as nat) + " is not linked to expected parent "@ + decimal(
                expected_parent as nat,
            ) + " but to "@ + optional_decimal(parent)
        },
        WenRestartErrorView::ChildStakeLargerThanParent(slot, child_stake, parent, parent_stake) => {
            "Block "@ + decimal(slot as nat) + " has more stake "@ + decimal(child_stake as nat)
                + " than its parent "@ + decimal(parent as nat) + " with stake "@ + decimal(
                parent_stake as nat,
            )
        },
        WenRestartErrorView::Exiting => "Exiting"@,
        WenRestartErrorView::FutureSnapshotExists(slot, highest_slot, directory) => {
            "Future snapshot exists for slot: "@ + decimal(slot as nat) + " highest slot: "@
                + decimal(highest_slot as nat) + " in directory: "@ + directory
        },
        WenRestartErrorView::GenerateSnapshotWhenOneExists(slot, directory) => {
            "Generate snapshot when one exists for slot: "@ + decimal(slot as nat)
                + " in directory: "@ + directory
        },
        WenRestartErrorView::GenerateSnapshotWhenDisabled => {
            "Generate snapshot when snapshots are disabled"@
        },
        WenRestartErrorView::HeaviestForkOnLeaderOnDifferentFork(
            coordinator_heaviest_slot,
            should_include_slot,
        ) => {
            "Heaviest fork on coordinator on different fork: heaviest: "@ + decimal(
                coordinator_heaviest_slot as nat,
            ) + " does not include: "@ + decimal(should_include_slot as nat)
        },
        WenRestartErrorView::MalformedLastVotedForkSlotsProtobuf(record) => {
            "Malformed last voted fork slots protobuf: "@ + optional_record_text(record)
        },
        WenRestartErrorView::MalformedProgress(state, missing) => {
            "Malformed progress: "@ + state_name(state) + " missing "@ + missing
        },
        WenRestartErrorView::MissingLastVotedForkSlots => "Missing last voted fork slots"@,
        WenRestartErrorView::MissingSnapshotInProtobuf => "Missing snapshot in protobuf"@,
        WenRestartErrorView::NotEnoughStakeAgreeingWithUs(slot, hash, block_stake_map) => {
            "Not enough stake agreeing with our slot: "@ + decimal(slot as nat) + " hash: "@
                + hash.text() + "\n {"@ + block_stakes_text(
                block_stake_map,
                block_stake_map.len() as int,
            ) + "}"@
        },
        WenRestartErrorView::UnexpectedState(state) => "Unexpected state: "@ + state_name(state),
    }
}

/// Writes a record of a last voted fork at the end of a text.
fn push_record(text: &mut String, record: &LastVotedForkSlotsRecord)
    ensures
        final(text)@ == old(text)@ + record_text(record@),
{
    text.append("LastVotedForkSlotsRecord { last_voted_fork_slots: ");
    push_decimal_list(text, &record.last_voted_fork_slots);
    text.append(", last_vote_bankhash: ");
    text.append(quote(record.last_vote_bankhash.as_str()).as_str());
    text.append(", shred_version: ");
    push_decimal(text, record.shred_version as u64);
    text.append(", wallclock: ");
    push_decimal(text, record.wallclock);
    text.append(" }");
}

/// Writes a list of block stakes at the end of a text.
fn push_block_stakes(text: &mut String, stakes: &Vec<BlockStake>)
    ensures
        final(text)@ == old(text)@ + block_stakes_text(stakes@, stakes@.len() as int),
{
    let mut i: usize = 0;
    while i < stakes.len()
        invariant
            i <= stakes@.len(),
            text@ == old(text)@ + block_stakes_text(stakes@, i as int),
        decreases stakes@.len() - i,
    {
        if i > 0 {
            text.append(", ");
        } else {
            proof {
                reveal_strlit("");
            }
        }
        text.append("(");
        push_decimal(text, stakes[i].slot);
        text.append(", ");
        text.append(stakes[i].hash.to_string().as_str());
        text.append("): ");
        push_decimal(text, stakes[i].stake);
        i += 1;
    }
}

impl WenRestartError {
    /// What the error says to the operator.
    pub fn to_string(&self) -> (message: String)
        ensures
            message@ == error_message(self@),
    {
        let mut f = String::new();
        match self {
            WenRestartError::BankHashMismatch(slot, expected, actual) => {
                f.append("Bank hash mismatch for slot: ");
                push_decimal(&mut f, *slot);
                f.append(" expected: ");
                f.append(expected.to_string().as_str());
                f.append(" actual: ");
                f.append(actual.to_string().as_str());
            },
            WenRestartError::BlockNotFound(slot) => {
                f.append("Block not found: ");
                push_decimal(&mut f, *slot);
            },
            WenRestartError::BlockNotFull(slot) => {
                f.append("Block not full: ");
                push_decimal(&mut f, *slot);
            },
            WenRestartError::BlockNotFrozenAfterReplay(slot, err) => {
                f.append("Block not frozen after replay: ");
                push_decimal(&mut f, *slot);
                f.append(" ");
                match err {
                    Some(why) => {
                        f.append("Some(");
                        f.append(quote(why.as_str()).as_str());
                        f.append(")");
                    },
                    None => {
                        f.append("None");
                    },
                }
            },
            WenRestartError::BlockNotLinkedToExpectedParent(slot, parent, expected_parent) => {
                f.append("Block ");
                push_decimal(&mut f, *slot);
                f.append(" is not linked to expected parent ");
                push_decimal(&mut f, *expected_parent);
                f.append(" but to ");
                push_optional_decimal(&mut f, *parent);
            },
            WenRestartError::ChildStakeLargerThanParent(slot, child_stake, parent, parent_stake) => {
                f.append("Block ");
                push_decimal(&mut f, *slot);
                f.append(" has more stake ");
                push_decimal(&mut f, *child_stake);
                f.append(" than its parent ");
                push_decimal(&mut f, *parent);
                f.append(" with stake ");
                push_decimal(&mut f, *parent_stake);
            },
            WenRestartError::Exiting => {
                f.append("Exiting");
            },
            WenRestartError::FutureSnapshotExists(slot, highest_slot, directory) => {
                f.append("Future snapshot exists for slot: ");
                push_decimal(&mut f, *slot);
                f.append(" highest slot: ");
                push_decimal(&mut f, *highest_slot);
                f.append(" in directory: ");
                f.append(directory.as_str());
            },
            WenRestartError::GenerateSnapshotWhenOneExists(slot, directory) => {
                f.append("Generate snapshot when one exists for slot: ");
                push_decimal(&mut f, *slot);
                f.append(" in directory: ");
                f.append(directory.as_str());
            },
            WenRestartError::GenerateSnapshotWhenDisabled => {
                f.append("Generate snapshot when snapshots are disabled");
            },
            WenRestartError::HeaviestForkOnLeaderOnDifferentFork(
                coordinator_heaviest_slot,
                should_include_slot,
            ) => {
                f.append("Heaviest fork on coordinator on different fork: heaviest: ");
                push_decimal(&mut f, *coordinator_heaviest_slot);
                f.append(" does not include: ");
                push_decimal(&mut f, *should_include_slot);
            },
            WenRestartError::MalformedLastVotedForkSlotsProtobuf(record) => {
                f.append("Malformed last voted fork slots protobuf: ");
                match record {
                    Some(r) => {
                        f.append("Some(");
                        push_record(&mut f, r);
                        f.append(")");
                    },
                    None => {
                        f.append("None");
                    },
                }
            },
            WenRestartError::MalformedProgress(state, missing) => {
                f.append("Malformed progress: ");
                f.append(state_str(*state));
                f.append(" missing ");
                f.append(missing.as_str());
            },
            WenRestartError::MissingLastVotedForkSlots => {
                f.append("Missing last voted fork slots");
            },
            WenRestartError::MissingSnapshotInProtobuf => {
                f.append("Missing snapshot in protobuf");
            },
            WenRestartError::NotEnoughStakeAgreeingWithUs(slot, hash, block_stake_map) => {
                f.append("Not enough stake agreeing with our slot: ");
                push_decimal(&mut f, *slot);
                f.append(" hash: ");
                f.append(hash.to_string().as_str());
                f.append("\n {");
                push_block_stakes(&mut f, block_stake_map);
                f.append("}");
            },
            WenRestartError::UnexpectedState(state) => {
                f.append("Unexpected state: ");
                f.append(state_str(*state));
            },
        }
        f
    }
}

} // verus!
