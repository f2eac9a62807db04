//! The first phase of a restart, tick by tick: take in what the others
//! have published of their last votes, say which slots to repair, and end
//! once enough stake has been heard from and nothing is left to repair.
//!
//! The caller owns the loop: it reads gossip, asks the ledger which slots
//! are full, publishes the slots to repair, writes the record and sleeps.

use crate::error::{WenRestartError, WenRestartErrorView};
use crate::last_voted_fork_slots_aggregate::{
    active_percent, epoch_is_considered, lemma_no_backward_stakes, lemma_record_handed,
    lemma_with_slots_at, message_views, min_active_percent_of, stakes_not_backward,
    LastVotedFork, LastVotedForkSlotsAggregate, LastVotedForkSlotsAggregateResult,
    LastVotedForkSlotsAggregateView, LastVotedForkSlotsEpochInfo, LastVotedForkSlotsFinalResult,
    RestartLastVotedForkSlots, RestartLastVotedForkSlotsView, SlotStakes,
};
use crate::progress::{
    ConflictMessage, ConflictMessageView, LastVotedForkSlotsAggregateRecord,
    LastVotedForkSlotsAggregateRecordView, LastVotedForkSlotsRecordView, WenRestartProgress,
    WenRestartProgressView,
};
use crate::root_bank::{lemma_none_wanted, RootBank};
use crate::slots::{ascending, sort_slots};
use crate::string_map::StringMap;
use solana_clock::Slot;
use std::collections::HashSet;
use vstd::prelude::*;

verus! {

/// The fork of the record at `at`, and none where the list is too short.
pub open spec fn fork_at(forks: Seq<Option<LastVotedFork>>, at: int) -> Option<LastVotedFork> {
    if 0 <= at < forks.len() {
        forks[at]
    } else {
        None
    }
}

/// The aggregate after the first `n` records have been handed to it, each
/// with what gossip makes of its slots.
pub open spec fn records_replayed(
    aggregate: LastVotedForkSlotsAggregateView,
    records: Seq<(Seq<char>, LastVotedForkSlotsRecordView)>,
    forks: Seq<Option<LastVotedFork>>,
    n: int,
) -> LastVotedForkSlotsAggregateView
    decreases n,
{
    if n <= 0 {
        aggregate
    } else {
        records_replayed(aggregate, records, forks, n - 1).with_record(
            records[n - 1].0,
            records[n - 1].1,
            fork_at(forks, n - 1),
        )
    }
}

/// The record of an aggregate that has heard from nobody.
pub open spec fn empty_aggregate_record() -> LastVotedForkSlotsAggregateRecordView {
    LastVotedForkSlotsAggregateRecordView { received: Map::empty(), final_result: None }
}

/// Begins or resumes the first phase. Where the record on disk holds what
/// was received before the validator last stopped, every record of it is
/// handed to the aggregate, those that are malformed being passed over;
/// `forks` holds, in the order of the records, what gossip makes of the slots
/// of each. Where the record on disk holds nothing yet, it is given an empty
/// place for what will be received.
pub fn resume_last_voted_fork_slots(
    aggregate: &mut LastVotedForkSlotsAggregate,
    progress: &mut WenRestartProgress,
    forks: &Vec<Option<LastVotedFork>>,
)
    ensures
        match old(progress).last_voted_fork_slots_aggregate {
            Some(record) => {
                &&& final(progress)@ == old(progress)@
                &&& final(aggregate)@ == records_replayed(
                    old(aggregate)@,
                    record.received.entry_views(),
                    forks@,
                    record.received.entries@.len() as int,
                )
            },
            None => {
                &&& final(aggregate)@ == old(aggregate)@
                &&& final(progress)@ == (WenRestartProgressView {
                    last_voted_fork_slots_aggregate: Some(empty_aggregate_record()),
                    ..old(progress)@
                })
            },
        },
{
    match &progress.last_voted_fork_slots_aggregate {
        Some(aggregate_record) => {
            let ghost records = aggregate_record.received.entry_views();
            let mut i: usize = 0;
            while i < aggregate_record.received.entries.len()
                invariant
                    i <= aggregate_record.received.entries@.len(),
                    records == aggregate_record.received.entry_views(),
                    aggregate@ == records_replayed(old(aggregate)@, records, forks@, i as int),
                decreases aggregate_record.received.entries@.len() - i,
            {
                let fork = if i < forks.len() {
                    match &forks[i] {
                        Some(fork) => Some(fork.clone()),
                        None => None,
                    }
                } else {
                    None
                };
                let ghost before = aggregate@;
                let entry = &aggregate_record.received.entries[i];
                let r = aggregate.aggregate_from_record(&entry.0, &entry.1, fork);
                proof {
                    lemma_record_handed(before, aggregate@, entry.0@, entry.1@, fork, r);
                    assert(before.with_record(entry.0@, entry.1@, fork) == before.with_record(
                        entry.0@,
                        entry.1@,
                        fork_at(forks@, i as int),
                    ));
                }
                i += 1;
            }
        },
        None => {
            progress.last_voted_fork_slots_aggregate = Some(
                LastVotedForkSlotsAggregateRecord { received: StringMap::new(), final_result: None },
            );
        },
    }
}

/// The aggregate and the record on disk, and whether the record has to be
/// written.
pub struct Taken {
    pub aggregate: LastVotedForkSlotsAggregateView,
    pub progress: WenRestartProgressView,
    pub changed: bool,
}

/// The record on disk with the record of a message entered under the name of
/// its sender.
pub open spec fn with_received(
    progress: WenRestartProgressView,
    from: Seq<char>,
    record: LastVotedForkSlotsRecordView,
) -> WenRestartProgressView {
    match progress.last_voted_fork_slots_aggregate {
        Some(aggregate_record) => WenRestartProgressView {
            last_voted_fork_slots_aggregate: Some(
                LastVotedForkSlotsAggregateRecordView {
                    received: aggregate_record.received.insert(from, record),
                    ..aggregate_record
                },
            ),
            ..progress
        },
        None => progress,
    }
}

/// The record on disk with a conflict entered under the name of the sender.
pub open spec fn with_conflict(
    progress: WenRestartProgressView,
    from: Seq<char>,
    conflict: ConflictMessageView,
) -> WenRestartProgressView {
    WenRestartProgressView {
        conflict_message: progress.conflict_message.insert(from, conflict),
        ..progress
    }
}

/// The aggregate and the record on disk after one message. The first message
/// of another validator is taken in and recorded. A message that contradicts
/// the one that the aggregate holds of its sender is recorded as a conflict,
/// with both messages as text. Any other message changes nothing.
pub open spec fn message_taken(before: Taken, message: RestartLastVotedForkSlotsView) -> Taken {
    if message.from == before.aggregate.my_pubkey {
        before
    } else {
        match before.aggregate.message_of(message.from) {
            Some(held) => if held == message {
                before
            } else {
                let progress = with_conflict(
                    before.progress,
                    message.from.text(),
                    ConflictMessageView { old_message: held.text(), new_message: message.text() },
                );
                Taken {
                    aggregate: before.aggregate,
                    progress,
                    changed: before.changed || progress != before.progress,
                }
            },
            None => {
                let progress = with_received(
                    before.progress,
                    message.from.text(),
                    message.to_record(),
                );
                Taken {
                    aggregate: before.aggregate.with_message(message),
                    progress,
                    changed: before.changed || progress != before.progress,
                }
            },
        }
    }
}

/// The aggregate and the record on disk after the first `n` messages.
pub open spec fn messages_taken(
    before: Taken,
    messages: Seq<RestartLastVotedForkSlotsView>,
    n: int,
) -> Taken
    decreases n,
{
    if n <= 0 {
        before
    } else {
        message_taken(messages_taken(before, messages, n - 1), messages[n - 1])
    }
}

/// Takes the messages in, in their order, and says whether the record on
/// disk has to be written: where `changed` says so already, and whenever a
/// message has changed the record.
fn take_messages(
    aggregate: &mut LastVotedForkSlotsAggregate,
    new_messages: &Vec<RestartLastVotedForkSlots>,
    changed: bool,
    progress: &mut WenRestartProgress,
) -> (now_changed: bool)
    ensures
        (Taken { aggregate: final(aggregate)@, progress: final(progress)@, changed: now_changed })
            == messages_taken(
            (Taken { aggregate: old(aggregate)@, progress: old(progress)@, changed }),
            message_views(new_messages@),
            new_messages@.len() as int,
        ),
{
    let ghost start = Taken { aggregate: old(aggregate)@, progress: old(progress)@, changed };
    let ghost messages = message_views(new_messages@);
    let mut changed = changed;
    let mut i: usize = 0;
    while i < new_messages.len()
        invariant
            i <= new_messages@.len(),
            messages == message_views(new_messages@),
            (Taken { aggregate: aggregate@, progress: progress@, changed }) == messages_taken(
                start,
                messages,
                i as int,
            ),
        decreases new_messages@.len() - i,
    {
        let new_message = new_messages[i].clone();
        let from = new_message.from.to_string();
        let ghost before = Taken { aggregate: aggregate@, progress: progress@, changed };
        match aggregate.aggregate(new_message) {
            LastVotedForkSlotsAggregateResult::Inserted(record) => {
                match &mut progress.last_voted_fork_slots_aggregate {
                    Some(aggregate_record) => {
                        let same = match aggregate_record.received.get(&from) {
                            Some(held) => held.same(&record),
                            None => false,
                        };
                        let ghost received = aggregate_record.received@;
                        aggregate_record.received.insert(from, record);
                        proof {
                            if same {
                                assert(aggregate_record.received@ =~= received);
                            }
                        }
                        if !same {
                            changed = true;
                        }
                    },
                    None => {},
                }
            },
            LastVotedForkSlotsAggregateResult::DifferentVersionExists(held, refused) => {
                let conflict = ConflictMessage {
                    old_message: held.describe(),
                    new_message: refused.describe(),
                };
                let same = match progress.conflict_message.get(&from) {
                    Some(known) => known.old_message == conflict.old_message && known.new_message
                        == conflict.new_message,
                    None => false,
                };
                let ghost conflicts = progress.conflict_message@;
                progress.conflict_message.insert(from, conflict);
                proof {
                    if same {
                        assert(progress.conflict_message@ =~= conflicts);
                    }
                }
                if !same {
                    changed = true;
                }
            },
            LastVotedForkSlotsAggregateResult::AlreadyExists => {},
        }
        proof {
            assert((Taken { aggregate: aggregate@, progress: progress@, changed }) == message_taken(
                before,
                messages[i as int],
            ));
        }
        i += 1;
    }
    changed
}

/// Where the first phase stands between two steps.
pub struct LastVotedForkSlotsPhase {
    /// What has been heard so far.
    pub aggregate: LastVotedForkSlotsAggregate,
    /// The slots that the ledger is known to hold in full.
    pub is_full_slots: HashSet<Slot>,
    /// The slots that the ledger has been asked about in this tick.
    pub asked: Vec<Slot>,
    /// Whether the record on disk has to be written in this tick: in the
    /// first tick, and whenever a message has changed the record.
    pub write_record: bool,
}

/// What the caller reports in the course of a tick.
pub enum TickEvent {
    /// A tick begins: these are the messages that gossip has brought since
    /// the last one.
    Gossip(Vec<RestartLastVotedForkSlots>),
    /// The answers of the ledger: for each of the slots asked about, in
    /// their order, whether it holds the whole block.
    Ledger(Vec<bool>),
}

/// What the caller has to do next in the course of a tick.
pub enum TickAction {
    /// Ask the ledger about these slots, and report `Ledger`.
    AskLedger { phase: LastVotedForkSlotsPhase, slots: Vec<Slot> },
    /// The tick is over and the phase is not: write the record where
    /// `write_record` says so, publish the slots to repair, wait, and report
    /// `Gossip`.
    Repair { phase: LastVotedForkSlotsPhase, repair_slots: Vec<Slot>, write_record: bool },
    /// The phase is over: write the record where `write_record` says so, and
    /// publish the slots to repair, of which there are none.
    Finished {
        final_result: LastVotedForkSlotsFinalResult,
        repair_slots: Vec<Slot>,
        write_record: bool,
    },
}

/// The first phase as it begins: nothing has been asked of the ledger, and
/// the record on disk is to be written in the first tick.
pub fn start_last_voted_fork_slots_phase(aggregate: LastVotedForkSlotsAggregate) -> (phase:
    LastVotedForkSlotsPhase)
    ensures
        phase.aggregate == aggregate,
        phase.is_full_slots@ == Set::<Slot>::empty(),
        phase.asked@.len() == 0,
        phase.write_record,
{
    LastVotedForkSlotsPhase {
        aggregate,
        is_full_slots: HashSet::new(),
        asked: Vec::new(),
        write_record: true,
    }
}

/// The record on disk with a place for what is received, an empty one where
/// it had none.
pub open spec fn with_place(progress: WenRestartProgressView) -> WenRestartProgressView {
    match progress.last_voted_fork_slots_aggregate {
        Some(_) => progress,
        None => WenRestartProgressView {
            last_voted_fork_slots_aggregate: Some(empty_aggregate_record()),
            ..progress
        },
    }
}

/// What the messages of a tick come to: the record on disk is given a place
/// for what is received where it has none, and the messages are taken in, in
/// their order.
pub open spec fn gossip_taken(
    phase: LastVotedForkSlotsPhase,
    progress: WenRestartProgressView,
    messages: Seq<RestartLastVotedForkSlotsView>,
) -> Taken {
    messages_taken(
        Taken {
            aggregate: phase.aggregate@,
            progress: with_place(progress),
            changed: phase.write_record || progress.last_voted_fork_slots_aggregate is None,
        },
        messages,
        messages.len() as int,
    )
}

/// Whether `r` and `after` are what a step of a tick comes to.
///
/// A tick begins with the messages of gossip. A validator that is about to
/// exit stops there, and nothing has changed. Otherwise the messages are
/// taken in, and the ledger is asked about the slots that are worth repairing,
/// lie after the root and are not known to be full, in ascending order.
///
/// The tick ends with the answers of the ledger. The slots that are full are
/// remembered; the others, in their order, are the slots to repair. Where
/// none is left and enough stake has been heard from, the phase is over, with
/// the final result of the aggregate. Otherwise the next tick follows.
pub open spec fn ticked(
    r: Result<TickAction, WenRestartError>,
    after: WenRestartProgressView,
    phase: LastVotedForkSlotsPhase,
    before: WenRestartProgressView,
    event: TickEvent,
    wait_for_supermajority_threshold_percent: u64,
    exit: bool,
) -> bool {
    match event {
        TickEvent::Gossip(messages) => if exit {
            &&& r matches Err(e)
            &&& e@ == WenRestartErrorView::Exiting
            &&& after == before
        } else {
            let taken = gossip_taken(phase, before, message_views(messages@));
            &&& r matches Ok(TickAction::AskLedger { phase: next, slots })
            &&& after == taken.progress
            &&& next.aggregate@ == taken.aggregate
            &&& next.write_record == taken.changed
            &&& next.is_full_slots@ == phase.is_full_slots@
            &&& next.asked@ == slots@
            &&& ascending(slots@)
            &&& forall|slot: Slot|
                slots@.contains(slot) <==> is_repair_candidate(
                    taken.aggregate,
                    phase.is_full_slots@,
                    slot,
                )
        },
        TickEvent::Ledger(full) => {
            let to_repair = slots_not_full(phase.asked@, full@, phase.asked@.len() as int);
            &&& after == before
            &&& if phase_is_over(
                phase.aggregate@,
                to_repair,
                wait_for_supermajority_threshold_percent,
            ) {
                &&& r matches Ok(TickAction::Finished { final_result, repair_slots, write_record })
                &&& final_result@.slots_stake_map == phase.aggregate@.slots_stake_map
                &&& final_result@.epoch_info_vec == phase.aggregate@.epoch_info_vec
                &&& repair_slots@ == to_repair
                &&& write_record == phase.write_record
            } else {
                &&& r matches Ok(TickAction::Repair { phase: next, repair_slots, write_record })
                &&& repair_slots@ == to_repair
                &&& write_record == phase.write_record
                &&& next.aggregate@ == phase.aggregate@
                &&& next.is_full_slots@ == slots_known_full(
                    phase.is_full_slots@,
                    phase.asked@,
                    full@,
                    phase.asked@.len() as int,
                )
                &&& next.asked@.len() == 0
                &&& !next.write_record
            }
        },
    }
}

/// Runs the first phase, step by step: takes what the caller reports, and
/// says what to do next. A tick is two steps: the messages of gossip, and
/// then the answers of the ledger. `phase` is what the step before returned,
/// and what `start_last_voted_fork_slots_phase` returns to begin with.
pub fn aggregate_restart_last_voted_fork_slots(
    phase: LastVotedForkSlotsPhase,
    event: TickEvent,
    wait_for_supermajority_threshold_percent: u64,
    exit: bool,
    progress: &mut WenRestartProgress,
) -> (r: Result<TickAction, WenRestartError>)
    ensures
        final(progress)@.state == old(progress)@.state,
        ticked(
            r,
            final(progress)@,
            phase,
            old(progress)@,
            event,
            wait_for_supermajority_threshold_percent,
            exit,
        ),
{
    let LastVotedForkSlotsPhase { aggregate, is_full_slots, asked, write_record } = phase;
    let mut aggregate = aggregate;
    let mut is_full_slots = is_full_slots;
    match event {
        TickEvent::Gossip(new_messages) => {
            if exit {
                return Err(WenRestartError::Exiting);
            }
            let mut changed = write_record;
            if progress.last_voted_fork_slots_aggregate.is_none() {
                progress.last_voted_fork_slots_aggregate = Some(
                    LastVotedForkSlotsAggregateRecord {
                        received: StringMap::new(),
                        final_result: None,
                    },
                );
                changed = true;
            }
            assert(progress@ == with_place(old(progress)@));
            let ghost placed = progress@;
            let changed = take_messages(&mut aggregate, &new_messages, changed, progress);
            proof {
                lemma_messages_keep_state(
                    Taken { aggregate: phase.aggregate@, progress: placed, changed: write_record
                        || old(progress).last_voted_fork_slots_aggregate is None },
                    message_views(new_messages@),
                    new_messages@.len() as int,
                );
            }
            let slots = repair_candidates(&aggregate, &is_full_slots);
            let asked = slots.clone();
            Ok(
                TickAction::AskLedger {
                    phase: LastVotedForkSlotsPhase {
                        aggregate,
                        is_full_slots,
                        asked,
                        write_record: changed,
                    },
                    slots,
                },
            )
        },
        TickEvent::Ledger(full) => {
            let repair_slots = drop_full_slots(&asked, &full, &mut is_full_slots);
            if last_voted_fork_slots_phase_is_over(
                &aggregate,
                &repair_slots,
                wait_for_supermajority_threshold_percent,
            ) {
                Ok(
                    TickAction::Finished {
                        final_result: aggregate.get_final_result(),
                        repair_slots,
                        write_record,
                    },
                )
            } else {
                Ok(
                    TickAction::Repair {
                        phase: LastVotedForkSlotsPhase {
                            aggregate,
                            is_full_slots,
                            asked: Vec::new(),
                            write_record: false,
                        },
                        repair_slots,
                        write_record,
                    },
                )
            }
        },
    }
}

/// Taking messages in leaves the phase that the record on disk is in as it
/// is.
pub proof fn lemma_messages_keep_state(
    before: Taken,
    messages: Seq<RestartLastVotedForkSlotsView>,
    n: int,
)
    ensures
        messages_taken(before, messages, n).progress.state == before.progress.state,
    decreases n,
{
    if n > 0 {
        lemma_messages_keep_state(before, messages, n - 1);
    }
}

/// Whether the ledger has to be asked about a slot: the slot is worth
/// repairing, lies after the root, and is not known to be full.
pub open spec fn is_repair_candidate(
    aggregate: LastVotedForkSlotsAggregateView,
    known_full: Set<Slot>,
    slot: Slot,
) -> bool {
    &&& aggregate.slots_to_repair.contains(slot)
    &&& slot > aggregate.root_bank.slot
    &&& !known_full.contains(slot)
}

/// The slots that the ledger has to be asked about, in ascending order.
pub fn repair_candidates(
    aggregate: &LastVotedForkSlotsAggregate,
    is_full_slots: &HashSet<Slot>,
) -> (candidates: Vec<Slot>)
    ensures
        ascending(candidates@),
        forall|slot: Slot|
            candidates@.contains(slot) <==> is_repair_candidate(aggregate@, is_full_slots@, slot),
{
    broadcast use vstd::std_specs::hash::group_hash_axioms;

    let worth = aggregate.slots_to_repair();
    let root_slot = aggregate.root_bank.slot;
    let mut candidates: Vec<Slot> = Vec::new();
    let mut i: usize = 0;
    while i < worth.len()
        invariant
            i <= worth@.len(),
            worth@.no_duplicates(),
            worth@.to_set() == aggregate@.slots_to_repair,
            root_slot == aggregate@.root_bank.slot,
            candidates@.no_duplicates(),
            forall|slot: Slot|
                candidates@.contains(slot) <==> (exists|j: int|
                    0 <= j < i && worth@[j] == slot && is_repair_candidate(
                        aggregate@,
                        is_full_slots@,
                        slot,
                    )),
        decreases worth@.len() - i,
    {
        let slot = worth[i];
        let ghost before = candidates@;
        if slot > root_slot && !is_full_slots.contains(&slot) {
            assert(!before.contains(slot));
            candidates.push(slot);
            assert forall|s: Slot|
                candidates@.contains(s) <==> (exists|j: int|
                    0 <= j < i + 1 && worth@[j] == s && is_repair_candidate(
                        aggregate@,
                        is_full_slots@,
                        s,
                    )) by {
                if candidates@.contains(s) {
                    let at = choose|at: int| 0 <= at < candidates@.len() && candidates@[at] == s;
                    if at < before.len() {
                        assert(before.contains(s));
                    }
                }
                if exists|j: int|
                    0 <= j < i + 1 && worth@[j] == s && is_repair_candidate(
                        aggregate@,
                        is_full_slots@,
                        s,
                    ) {
                    let j = choose|j: int|
                        0 <= j < i + 1 && worth@[j] == s && is_repair_candidate(
                            aggregate@,
                            is_full_slots@,
                            s,
                        );
                    if j < i {
                        assert(before.contains(s));
                        let at = choose|at: int| 0 <= at < before.len() && before[at] == s;
                        assert(candidates@[at] == s);
                    } else {
                        assert(candidates@[before.len() as int] == s);
                    }
                }
            }
        }
        i += 1;
    }
    let ghost unsorted = candidates@;
    sort_slots(&mut candidates);
    proof {
        assert forall|slot: Slot|
            candidates@.contains(slot) <==> is_repair_candidate(
                aggregate@,
                is_full_slots@,
                slot,
            ) by {
            assert(candidates@.to_set().contains(slot) <==> unsorted.to_set().contains(slot));
        }
    }
    candidates
}

/// The slots among the first `n` candidates that the ledger says are not
/// full. A slot without an answer counts as not full.
pub open spec fn slots_not_full(candidates: Seq<Slot>, full: Seq<bool>, n: int) -> Seq<Slot>
    decreases n,
{
    if n <= 0 {
        Seq::empty()
    } else if n - 1 < full.len() && full[n - 1] {
        slots_not_full(candidates, full, n - 1)
    } else {
        slots_not_full(candidates, full, n - 1).push(candidates[n - 1])
    }
}

/// The slots known to be full once the answers of the ledger for the first
/// `n` candidates are known.
pub open spec fn slots_known_full(
    known_full: Set<Slot>,
    candidates: Seq<Slot>,
    full: Seq<bool>,
    n: int,
) -> Set<Slot>
    decreases n,
{
    if n <= 0 {
        known_full
    } else if n - 1 < full.len() && full[n - 1] {
        slots_known_full(known_full, candidates, full, n - 1).insert(candidates[n - 1])
    } else {
        slots_known_full(known_full, candidates, full, n - 1)
    }
}

/// Takes the answers of the ledger in: `full` says, for each candidate in
/// order, whether the ledger holds the whole block. The full slots are
/// remembered and will not be asked about again; the others, in their order,
/// are the slots to repair.
pub fn drop_full_slots(
    candidates: &Vec<Slot>,
    full: &Vec<bool>,
    is_full_slots: &mut HashSet<Slot>,
) -> (to_repair: Vec<Slot>)
    ensures
        to_repair@ == slots_not_full(candidates@, full@, candidates@.len() as int),
        final(is_full_slots)@ == slots_known_full(
            old(is_full_slots)@,
            candidates@,
            full@,
            candidates@.len() as int,
        ),
{
    broadcast use vstd::std_specs::hash::group_hash_axioms;

    let mut to_repair: Vec<Slot> = Vec::new();
    let mut i: usize = 0;
    while i < candidates.len()
        invariant
            i <= candidates@.len(),
            to_repair@ == slots_not_full(candidates@, full@, i as int),
            is_full_slots@ == slots_known_full(old(is_full_slots)@, candidates@, full@, i as int),
        decreases candidates@.len() - i,
    {
        if i < full.len() && full[i] {
            is_full_slots.insert(candidates[i]);
        } else {
            to_repair.push(candidates[i]);
        }
        i += 1;
    }
    to_repair
}

/// Whether the first phase is over: nothing is left to repair, and in every
/// epoch that counts the share of the stake heard from has reached the
/// threshold.
pub open spec fn phase_is_over(
    aggregate: LastVotedForkSlotsAggregateView,
    to_repair: Seq<Slot>,
    wait_for_supermajority_threshold_percent: u64,
) -> bool {
    to_repair.len() == 0 && aggregate.min_active_percent()
        >= wait_for_supermajority_threshold_percent
}

/// Decides at the end of a tick whether the first phase is over. Where it is,
/// the caller publishes an empty repair list and takes the final result of
/// the aggregate; where it is not, the caller publishes `to_repair` and goes
/// on.
pub fn last_voted_fork_slots_phase_is_over(
    aggregate: &LastVotedForkSlotsAggregate,
    to_repair: &Vec<Slot>,
    wait_for_supermajority_threshold_percent: u64,
) -> (over: bool)
    ensures
        over == phase_is_over(aggregate@, to_repair@, wait_for_supermajority_threshold_percent),
{
    to_repair.len() == 0 && aggregate.min_active_percent()
        >= wait_for_supermajority_threshold_percent
}

/// Among the first `n` epochs, the smallest share heard from is that of an
/// epoch that counts.
pub proof fn lemma_min_active_percent(infos: Seq<LastVotedForkSlotsEpochInfo>, n: int)
    requires
        0 <= n <= infos.len(),
    ensures
        match min_active_percent_of(infos, n) {
            Some(least) => exists|i: int|
                0 <= i < n && epoch_is_considered(infos[i]) && active_percent(infos[i]) == least,
            None => forall|i: int| 0 <= i < n ==> !epoch_is_considered(infos[i]),
        },
    decreases n,
{
    if n > 0 {
        lemma_min_active_percent(infos, n - 1);
        match min_active_percent_of(infos, n - 1) {
            Some(least) => {
            },
            None => {},
        }
    }
}

/// Once every validator has been heard from, the first phase ends at the
/// first tick at which nothing is left to repair: where the whole stake of
/// every epoch has been heard from and some epoch counts, the share heard
/// from has reached every threshold up to 100 percent.
pub proof fn lemma_aggregate_converges(
    aggregate: LastVotedForkSlotsAggregateView,
    wait_for_supermajority_threshold_percent: u64,
)
    requires
        wait_for_supermajority_threshold_percent <= 100,
        forall|i: int|
            0 <= i < aggregate.epoch_info_vec.len() ==> (
            #[trigger] aggregate.epoch_info_vec[i]).actively_voting_stake
                == aggregate.epoch_info_vec[i].total_stake,
        exists|i: int|
            0 <= i < aggregate.epoch_info_vec.len() && epoch_is_considered(
                aggregate.epoch_info_vec[i],
            ),
    ensures
        phase_is_over(aggregate, Seq::<Slot>::empty(), wait_for_supermajority_threshold_percent),
{
    let infos = aggregate.epoch_info_vec;
    lemma_min_active_percent(infos, infos.len() as int);
    match min_active_percent_of(infos, infos.len() as int) {
        Some(least) => {
            let i = choose|i: int|
                0 <= i < infos.len() && epoch_is_considered(infos[i]) && active_percent(infos[i])
                    == least;
            let info = infos[i];
            if info.total_stake > 0 {
                assert(100 * info.total_stake / (info.total_stake as int) == 100) by (nonlinear_arith)
                    requires
                        info.total_stake > 0,
                ;
            }
        },
        None => {
        },
    }
}

/// Whether the ledger has answered that the block of the candidate at `at`
/// is full.
pub open spec fn answered_full(full: Seq<bool>, at: int) -> bool {
    0 <= at < full.len() && full[at]
}

/// The slots to repair are the candidates that the ledger does not hold in
/// full: as the candidates, they are in ascending order and none is there
/// twice.
pub proof fn lemma_slots_not_full(candidates: Seq<Slot>, full: Seq<bool>, n: int)
    requires
        0 <= n <= candidates.len(),
        ascending(candidates),
    ensures
        ascending(slots_not_full(candidates, full, n)),
        forall|slot: Slot|
            slots_not_full(candidates, full, n).contains(slot) <==> (exists|i: int|
                0 <= i < n && candidates[i] == slot && !answered_full(full, i)),
    decreases n,
{
    if n > 0 {
        lemma_slots_not_full(candidates, full, n - 1);
        let before = slots_not_full(candidates, full, n - 1);
        let now = slots_not_full(candidates, full, n);
        assert forall|slot: Slot|
            now.contains(slot) <==> (exists|i: int|
                0 <= i < n && candidates[i] == slot && !answered_full(full, i)) by {
            if now.contains(slot) {
                let k = choose|k: int| 0 <= k < now.len() && now[k] == slot;
                if k < before.len() {
                    assert(before.contains(slot));
                } else {
                    assert(candidates[n - 1] == slot && !answered_full(full, n - 1));
                }
            }
            if exists|i: int| 0 <= i < n && candidates[i] == slot && !answered_full(full, i) {
                let i = choose|i: int|
                    0 <= i < n && candidates[i] == slot && !answered_full(full, i);
                if i < n - 1 {
                    assert(before.contains(slot));
                    let k = choose|k: int| 0 <= k < before.len() && before[k] == slot;
                    assert(now[k] == slot);
                } else {
                    assert(now[before.len() as int] == slot);
                }
            }
        }
        if !answered_full(full, n - 1) {
            assert forall|i: int, j: int| 0 <= i < j < now.len() implies now[i] < now[j] by {
                if j == before.len() {
                    assert(before.contains(now[i]));
                    let at = choose|at: int|
                        0 <= at < n - 1 && candidates[at] == now[i] && !answered_full(full, at);
                }
            }
        }
    }
}

/// The slots that a tick says to repair are in ascending order, none twice,
/// and they are the slots that are worth repairing, lie after the root, were
/// not known to be full, and that the ledger has not answered to hold in
/// full. `asked` is the list that the first step of the tick has returned.
pub proof fn lemma_repair_list(
    aggregate: LastVotedForkSlotsAggregateView,
    known_full: Set<Slot>,
    asked: Seq<Slot>,
    full: Seq<bool>,
    slot: Slot,
)
    requires
        ascending(asked),
        forall|s: Slot| asked.contains(s) <==> is_repair_candidate(aggregate, known_full, s),
    ensures
        ascending(slots_not_full(asked, full, asked.len() as int)),
        slots_not_full(asked, full, asked.len() as int).contains(slot) <==> is_repair_candidate(
            aggregate,
            known_full,
            slot,
        ) && !answered_full(full, asked.index_of(slot)),
{
    lemma_slots_not_full(asked, full, asked.len() as int);
    if asked.contains(slot) {
        let at = asked.index_of(slot);
        assert(0 <= at < asked.len() && asked[at] == slot);
        if slots_not_full(asked, full, asked.len() as int).contains(slot) {
            let i = choose|i: int|
                0 <= i < asked.len() && asked[i] == slot && !answered_full(full, i);
            assert(i == at) by {
                if i < at {
                    assert(asked[i] < asked[at]);
                }
                if at < i {
                    assert(asked[at] < asked[i]);
                }
            }
        }
    }
}

/// The slots that a step says to publish for repair, none while the ledger
/// is still to be asked.
pub open spec fn repair_slots_of(action: TickAction) -> Seq<Slot> {
    match action {
        TickAction::AskLedger { .. } => Seq::empty(),
        TickAction::Repair { repair_slots, .. } => repair_slots@,
        TickAction::Finished { repair_slots, .. } => repair_slots@,
    }
}

/// The repair list of a whole tick. Where the first step of a tick has taken
/// the messages in and asked the ledger, the step that takes the answers ends
/// the tick with the list of slots to publish for repair: it is in ascending
/// order and holds no slot twice, and it holds exactly the slots that, after
/// the messages of the tick, are worth repairing, lie after the root, were not
/// known to be full, and that the ledger has not answered to hold in full.
/// Where the tick ends the phase, the list is empty.
pub proof fn lemma_tick_repair_list(
    phase: LastVotedForkSlotsPhase,
    before: WenRestartProgressView,
    messages: Vec<RestartLastVotedForkSlots>,
    next: LastVotedForkSlotsPhase,
    slots: Vec<Slot>,
    between: WenRestartProgressView,
    full: Vec<bool>,
    answered: Result<TickAction, WenRestartError>,
    after: WenRestartProgressView,
    wait_for_supermajority_threshold_percent: u64,
    exit: bool,
    slot: Slot,
)
    requires
        ticked(
            Ok(TickAction::AskLedger { phase: next, slots }),
            between,
            phase,
            before,
            TickEvent::Gossip(messages),
            wait_for_supermajority_threshold_percent,
            false,
        ),
        ticked(
            answered,
            after,
            next,
            between,
            TickEvent::Ledger(full),
            wait_for_supermajority_threshold_percent,
            exit,
        ),
    ensures
        answered matches Ok(action) && !(action is AskLedger) && ascending(repair_slots_of(action))
            && (repair_slots_of(action).contains(slot) <==> is_repair_candidate(
            gossip_taken(phase, before, message_views(messages@)).aggregate,
            phase.is_full_slots@,
            slot,
        ) && !answered_full(full@, slots@.index_of(slot))) && (action is Finished
            ==> repair_slots_of(action).len() == 0),
{
    lemma_repair_list(
        gossip_taken(phase, before, message_views(messages@)).aggregate,
        phase.is_full_slots@,
        slots@,
        full@,
        slot,
    );
}

/// Convergence: once every validator has been heard from, the phase ends
/// with the tick in which nothing is left to repair. Where the whole stake of
/// every epoch has been heard from and some epoch counts, the answers of the
/// ledger that leave no slot to repair end the phase, whatever the threshold
/// up to 100 percent.
pub proof fn lemma_tick_ends_phase(
    r: Result<TickAction, WenRestartError>,
    after: WenRestartProgressView,
    phase: LastVotedForkSlotsPhase,
    before: WenRestartProgressView,
    full: Vec<bool>,
    wait_for_supermajority_threshold_percent: u64,
    exit: bool,
)
    requires
        ticked(
            r,
            after,
            phase,
            before,
            TickEvent::Ledger(full),
            wait_for_supermajority_threshold_percent,
            exit,
        ),
        wait_for_supermajority_threshold_percent <= 100,
        forall|i: int|
            0 <= i < phase.aggregate@.epoch_info_vec.len() ==> (
            #[trigger] phase.aggregate@.epoch_info_vec[i]).actively_voting_stake
                == phase.aggregate@.epoch_info_vec[i].total_stake,
        exists|i: int|
            0 <= i < phase.aggregate@.epoch_info_vec.len() && epoch_is_considered(
                phase.aggregate@.epoch_info_vec[i],
            ),
        slots_not_full(phase.asked@, full@, phase.asked@.len() as int).len() == 0,
    ensures
        r matches Ok(action) && action is Finished,
{
    lemma_aggregate_converges(phase.aggregate@, wait_for_supermajority_threshold_percent);
    assert(slots_not_full(phase.asked@, full@, phase.asked@.len() as int) =~= Seq::<
        Slot,
    >::empty());
}

/// Whether a message keeps the stake behind `child` no larger than the stake
/// behind `parent`: it names no slot twice, it names the parent wherever it
/// names the child, and the stake of its sender in the epoch of the child is
/// no larger than its stake in the epoch of the parent.
pub open spec fn keeps_stakes_in_order(
    bank: RootBank,
    message: RestartLastVotedForkSlotsView,
    child: Slot,
    parent: Slot,
) -> bool {
    &&& message.last_voted_fork_slots.no_duplicates()
    &&& message.last_voted_fork_slots.contains(child) ==> message.last_voted_fork_slots.contains(
        parent,
    )
    &&& bank.slot_stake(child, message.from) matches Some(stake) ==> (bank.slot_stake(
        parent,
        message.from,
    ) matches Some(parent_stake) && stake <= parent_stake)
}

/// No backward stakes, tick after tick: where the stake behind a slot was no
/// larger than the stake behind its parent, it is no larger after the first
/// `n` messages of a tick have been taken in, provided that each of them
/// keeps the two in order. What holds after the last tick holds of the final
/// result, which has its stakes from the aggregate.
pub proof fn lemma_no_backward_stakes_after_messages(
    before: Taken,
    messages: Seq<RestartLastVotedForkSlotsView>,
    n: int,
    child: Slot,
    parent: Slot,
)
    requires
        0 <= n <= messages.len(),
        stakes_not_backward(before.aggregate.slots_stake_map, child, parent),
        forall|i: int|
            0 <= i < n ==> keeps_stakes_in_order(
                before.aggregate.root_bank,
                #[trigger] messages[i],
                child,
                parent,
            ),
    ensures
        messages_taken(before, messages, n).aggregate.root_bank == before.aggregate.root_bank,
        stakes_not_backward(
            messages_taken(before, messages, n).aggregate.slots_stake_map,
            child,
            parent,
        ),
    decreases n,
{
    if n > 0 {
        lemma_no_backward_stakes_after_messages(before, messages, n - 1, child, parent);
        let taken = messages_taken(before, messages, n - 1);
        assert(keeps_stakes_in_order(before.aggregate.root_bank, messages[n - 1], child, parent));
        lemma_no_backward_stakes(taken.aggregate, messages[n - 1], child, parent);
    }
}

/// The stake behind each slot that a step hands on: that of the aggregate
/// while the phase goes on, and that of the final result once it is over.
pub open spec fn stakes_handed_on(action: TickAction) -> Map<Slot, u64> {
    match action {
        TickAction::AskLedger { phase, .. } => phase.aggregate@.slots_stake_map,
        TickAction::Repair { phase, .. } => phase.aggregate@.slots_stake_map,
        TickAction::Finished { final_result, .. } => final_result@.slots_stake_map,
    }
}

/// No backward stakes, from the first step of the phase to its final
/// result: where the stake behind a slot was no larger than the stake behind
/// its parent before a step, it is no larger in what the step hands on,
/// provided that each message that the step takes in keeps the two in order.
pub proof fn lemma_no_backward_stakes_in_phase(
    r: Result<TickAction, WenRestartError>,
    after: WenRestartProgressView,
    phase: LastVotedForkSlotsPhase,
    before: WenRestartProgressView,
    event: TickEvent,
    wait_for_supermajority_threshold_percent: u64,
    exit: bool,
    child: Slot,
    parent: Slot,
)
    requires
        ticked(r, after, phase, before, event, wait_for_supermajority_threshold_percent, exit),
        stakes_not_backward(phase.aggregate@.slots_stake_map, child, parent),
        event matches TickEvent::Gossip(messages) ==> forall|i: int|
            0 <= i < messages@.len() ==> keeps_stakes_in_order(
                phase.aggregate@.root_bank,
                (#[trigger] messages@[i])@,
                child,
                parent,
            ),
    ensures
        r matches Ok(action) ==> stakes_not_backward(stakes_handed_on(action), child, parent),
{
    match event {
        TickEvent::Gossip(messages) => {
            if !exit {
                let views = message_views(messages@);
                assert forall|i: int| 0 <= i < views.len() implies keeps_stakes_in_order(
                    phase.aggregate@.root_bank,
                    #[trigger] views[i],
                    child,
                    parent,
                ) by {
                    assert(views[i] == messages@[i]@);
                }
                lemma_no_backward_stakes_after_messages(
                    Taken {
                        aggregate: phase.aggregate@,
                        progress: with_place(before),
                        changed: phase.write_record || before.last_voted_fork_slots_aggregate
                            is None,
                    },
                    views,
                    views.len() as int,
                    child,
                    parent,
                );
            }
        },
        TickEvent::Ledger(full) => {},
    }
}

/// The stake behind a slot, 0 where none stands behind it.
pub open spec fn stake_behind(map: Map<Slot, u64>, slot: Slot) -> int {
    if map.contains_key(slot) {
        map[slot] as int
    } else {
        0
    }
}

/// The stake that the senders of the first `n` messages have behind `slot`:
/// the stake, in the epoch of the slot, of each sender that names the slot.
pub open spec fn stake_named(
    bank: RootBank,
    messages: Seq<RestartLastVotedForkSlotsView>,
    n: int,
    slot: Slot,
) -> int
    decreases n,
{
    if n <= 0 {
        0
    } else {
        let message = messages[n - 1];
        stake_named(bank, messages, n - 1, slot) + if message.last_voted_fork_slots.contains(slot) {
            match bank.slot_stake(slot, message.from) {
                Some(stake) => stake as int,
                None => 0,
            }
        } else {
            0
        }
    }
}

/// Whether the first `n` messages are news to the aggregate: each is of
/// another sender, none is of the validator itself or of a sender that the
/// aggregate holds a message of, and none names a slot twice.
pub open spec fn heard_anew(
    aggregate: LastVotedForkSlotsAggregateView,
    messages: Seq<RestartLastVotedForkSlotsView>,
    n: int,
) -> bool {
    &&& forall|i: int, j: int| 0 <= i < j < n ==> messages[i].from != messages[j].from
    &&& forall|i: int| 0 <= i < n ==> (#[trigger] messages[i]).from != aggregate.my_pubkey
    &&& forall|i: int, k: int|
        0 <= i < n && 0 <= k < aggregate.last_voted_fork_slots.len() ==> (
        #[trigger] aggregate.last_voted_fork_slots[k]).from != (#[trigger] messages[i]).from
    &&& forall|i: int| 0 <= i < n ==> (#[trigger] messages[i]).last_voted_fork_slots.no_duplicates()
}

/// The stake behind a slot is the stake of those heard from that have voted
/// on it. Where the messages of a tick are news to the aggregate, the stake
/// behind a slot afterwards is the stake that stood behind it before and the
/// stake of every sender that names the slot, or the largest number there is
/// where the sum is larger. The aggregate then holds each of the messages, in
/// their order, after the ones it held.
pub proof fn lemma_stake_of_those_heard(
    before: Taken,
    messages: Seq<RestartLastVotedForkSlotsView>,
    n: int,
    slot: Slot,
)
    requires
        0 <= n <= messages.len(),
        heard_anew(before.aggregate, messages, n),
    ensures
        ({
            let after = messages_taken(before, messages, n).aggregate;
            let sum = stake_behind(before.aggregate.slots_stake_map, slot) + stake_named(
                before.aggregate.root_bank,
                messages,
                n,
                slot,
            );
            &&& after.root_bank == before.aggregate.root_bank
            &&& after.my_pubkey == before.aggregate.my_pubkey
            &&& after.last_voted_fork_slots == before.aggregate.last_voted_fork_slots
                + messages.take(n)
            &&& stake_behind(after.slots_stake_map, slot) == if sum > u64::MAX {
                u64::MAX as int
            } else {
                sum
            }
        }),
    decreases n,
{
    if n <= 0 {
        assert(before.aggregate.last_voted_fork_slots + messages.take(0)
            =~= before.aggregate.last_voted_fork_slots);
    } else {
        lemma_stake_of_those_heard(before, messages, n - 1, slot);
        let taken = messages_taken(before, messages, n - 1);
        let message = messages[n - 1];
        let held = taken.aggregate.last_voted_fork_slots;
        assert forall|k: int| 0 <= k < held.len() implies held[k].from != message.from by {
            if k < before.aggregate.last_voted_fork_slots.len() {
                assert(held[k] == before.aggregate.last_voted_fork_slots[k]);
            } else {
                assert(held[k] == messages[k - before.aggregate.last_voted_fork_slots.len()]);
            }
        }
        lemma_none_wanted(
            held,
            |other: RestartLastVotedForkSlotsView| other.from == message.from,
        );
        assert(taken.aggregate.message_of(message.from) is None);
        let slots = message.last_voted_fork_slots;
        lemma_with_slots_at(
            taken.aggregate.root_bank,
            message.from,
            SlotStakes {
                slots_stake_map: taken.aggregate.slots_stake_map,
                slots_to_repair: taken.aggregate.slots_to_repair,
            },
            slots,
            slots.len() as int,
            slot,
        );
        assert(held.push(message) =~= before.aggregate.last_voted_fork_slots + messages.take(n));
    }
}

/// Senders of one stake: where each of the first `n` senders names the slot
/// and has the stake `stake` in its epoch, the stake that they have behind the
/// slot is `n` times that stake.
pub proof fn lemma_stake_named_by_equals(
    bank: RootBank,
    messages: Seq<RestartLastVotedForkSlotsView>,
    n: int,
    slot: Slot,
    stake: u64,
)
    requires
        0 <= n <= messages.len(),
        forall|i: int|
            0 <= i < n ==> (#[trigger] messages[i]).last_voted_fork_slots.contains(slot)
                && bank.slot_stake(slot, messages[i].from) == Some(stake),
    ensures
        stake_named(bank, messages, n, slot) == n * stake,
    decreases n,
{
    if n > 0 {
        lemma_stake_named_by_equals(bank, messages, n - 1, slot, stake);
        assert(messages[n - 1].last_voted_fork_slots.contains(slot));
        assert((n - 1) * stake + stake == n * stake) by (nonlinear_arith);
    } else {
        assert(n * stake == 0) by (nonlinear_arith)
            requires
                n == 0,
        ;
    }
}

} // verus!
