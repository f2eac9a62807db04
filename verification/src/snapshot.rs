//! The snapshot that a restart ends with: the hard fork at the agreed slot,
//! the kind of snapshot to produce, and the shred version that the cluster
//! restarts with.

use crate::driver::PhaseOutcome;
use crate::error::{WenRestartError, WenRestartErrorView};
use solana_clock::Slot;
use solana_hard_forks::HardForks;
use vstd::prelude::*;

verus! {

/// Declares `HardForks` of `solana_hard_forks`: what it holds is named by
/// `hard_fork_list`.
#[verifier::external_type_specification]
#[verifier::external_body]
pub struct ExHardForks(HardForks);

/// The hard forks that a `HardForks` of `solana_hard_forks` holds, in the
/// order in which it hands them out: each a slot and the number of times that
/// it was registered.
pub uninterp spec fn hard_fork_list(hard_forks: HardForks) -> Seq<(u64, usize)>;

/// The shred version that `solana_shred_version` computes from the bytes of
/// a genesis hash and a list of hard forks.
pub uninterp spec fn shred_version_of(genesis_hash: Seq<u8>, hard_forks: Seq<(u64, usize)>) -> u16;

/// Whether a list of hard forks is ordered by slot, and by count among equal
/// slots.
pub open spec fn hard_forks_in_order(list: Seq<(u64, usize)>) -> bool {
    forall|i: int, j: int|
        0 <= i < j < list.len() ==> list[i].0 < list[j].0 || (list[i].0 == list[j].0 && list[i].1
            <= list[j].1)
}

/// The first `n` entries of a list of hard forks with `slot` registered once
/// more among them: the count of the first entry of that slot is one higher,
/// unless it is the largest count already.
pub open spec fn counted_once_more(list: Seq<(u64, usize)>, slot: u64, n: int) -> Seq<
    (u64, usize),
>
    decreases n,
{
    if n <= 0 {
        Seq::empty()
    } else {
        let before = counted_once_more(list, slot, n - 1);
        let entry = list[n - 1];
        if entry.0 == slot && !has_hard_fork(list, slot, n - 1) {
            before.push(
                (
                    slot,
                    if entry.1 == usize::MAX {
                        entry.1
                    } else {
                        (entry.1 + 1) as usize
                    },
                ),
            )
        } else {
            before.push(entry)
        }
    }
}

/// Whether one of the first `n` entries of a list of hard forks is at `slot`.
pub open spec fn has_hard_fork(list: Seq<(u64, usize)>, slot: u64, n: int) -> bool
    decreases n,
{
    if n <= 0 {
        false
    } else {
        list[n - 1].0 == slot || has_hard_fork(list, slot, n - 1)
    }
}

/// The entries of a list of hard forks once `slot` has been registered,
/// before they are put in order.
pub open spec fn with_hard_fork(list: Seq<(u64, usize)>, slot: u64) -> Seq<(u64, usize)> {
    if has_hard_fork(list, slot, list.len() as int) {
        counted_once_more(list, slot, list.len() as int)
    } else {
        list.push((slot, 1))
    }
}

/// Calls `HardForks::iter` of `solana_hard_forks` and copies what it hands
/// out. Trusted: these are the hard forks that the value holds.
#[verifier::external_body]
fn hard_forks_to_vec(hard_forks: &HardForks) -> (list: Vec<(u64, usize)>)
    ensures
        list@ == hard_fork_list(*hard_forks),
{
    hard_forks.iter().copied().collect()
}

/// Calls `HardForks::register` of `solana_hard_forks`. Trusted, as its source
/// shows: a slot that is held already has the count of its first entry raised
/// by one, another slot is added with the count one, and afterwards the
/// entries are in order.
#[verifier::external_body]
fn register_hard_fork(hard_forks: &mut HardForks, slot: u64)
    ensures
        hard_fork_list(*final(hard_forks)).to_multiset() == with_hard_fork(
            hard_fork_list(*old(hard_forks)),
            slot,
        ).to_multiset(),
        hard_forks_in_order(hard_fork_list(*final(hard_forks))),
{
    hard_forks.register(slot)
}

/// Calls `compute_shred_version` of `solana_shred_version`. Trusted: the
/// version is a function of the bytes of the genesis hash and of the hard
/// forks in their order.
#[verifier::external_body]
fn compute_shred_version(genesis_hash: &[u8; 32], hard_forks: &HardForks) -> (version: u16)
    ensures
        version == shred_version_of(genesis_hash@, hard_fork_list(*hard_forks)),
{
    solana_shred_version::compute_shred_version(
        &solana_hash::Hash::new_from_array(*genesis_hash),
        Some(hard_forks),
    )
}

/// Whether a list of hard forks holds one at `slot`.
pub open spec fn is_hard_fork(list: Seq<(u64, usize)>, slot: u64) -> bool {
    has_hard_fork(list, slot, list.len() as int)
}

/// Makes the agreed slot a hard fork, unless it is one already, and says
/// whether it has done so: the caller then registers the slot with its root
/// bank too.
pub fn register_restart_hard_fork(
    hard_forks: &mut HardForks,
    my_heaviest_fork_slot: Slot,
) -> (registered: bool)
    ensures
        registered == !is_hard_fork(hard_fork_list(*old(hard_forks)), my_heaviest_fork_slot),
        !registered ==> *final(hard_forks) == *old(hard_forks),
        registered ==> hard_forks_in_order(hard_fork_list(*final(hard_forks))),
        registered ==> hard_fork_list(*final(hard_forks)).to_multiset() == hard_fork_list(
            *old(hard_forks),
        ).push((my_heaviest_fork_slot, 1)).to_multiset(),
        is_hard_fork(hard_fork_list(*final(hard_forks)), my_heaviest_fork_slot),
{
    let list = hard_forks_to_vec(hard_forks);
    let mut i: usize = 0;
    while i < list.len()
        invariant
            i <= list@.len(),
            *hard_forks == *old(hard_forks),
            list@ == hard_fork_list(*hard_forks),
            !has_hard_fork(list@, my_heaviest_fork_slot, i as int),
        decreases list@.len() - i,
    {
        if list[i].0 == my_heaviest_fork_slot {
            proof {
                lemma_has_hard_fork(list@, my_heaviest_fork_slot, i as int, list@.len() as int);
            }
            return false;
        }
        i += 1;
    }
    register_hard_fork(hard_forks, my_heaviest_fork_slot);
    proof {
        let before = hard_fork_list(*old(hard_forks));
        let after = hard_fork_list(*hard_forks);
        let entry = (my_heaviest_fork_slot, 1usize);
        let added = before.push(entry);
        assert(added[before.len() as int] == entry);
        vstd::seq_lib::to_multiset_contains(added, entry);
        vstd::seq_lib::to_multiset_contains(after, entry);
        let at = choose|at: int| 0 <= at < after.len() && after[at] == entry;
        lemma_has_hard_fork(after, my_heaviest_fork_slot, at, after.len() as int);
    }
    true
}

/// A slot that is at one of the first entries of a list is at one of its
/// entries.
pub proof fn lemma_has_hard_fork(list: Seq<(u64, usize)>, slot: u64, at: int, n: int)
    requires
        0 <= at < n <= list.len(),
        list[at].0 == slot,
    ensures
        has_hard_fork(list, slot, n),
    decreases n,
{
    if at < n - 1 {
        lemma_has_hard_fork(list, slot, at, n - 1);
    }
}

/// The kind of snapshot to produce.
#[derive(Clone, Copy, Debug, PartialEq, Eq, Structural)]
pub enum SnapshotKind {
    /// A full snapshot.
    Full,
    /// An incremental snapshot on top of the full snapshot at this slot.
    Incremental(Slot),
}

/// Checks a snapshot that exists at `slot` in `directory` against the slot
/// of the intended one: it must be earlier.
pub open spec fn slot_checked(
    slot: Slot,
    intended_snapshot_slot: Slot,
    directory: Seq<char>,
) -> Result<(), WenRestartErrorView> {
    if slot > intended_snapshot_slot {
        Err(WenRestartErrorView::FutureSnapshotExists(intended_snapshot_slot, slot, directory))
    } else if slot == intended_snapshot_slot {
        Err(WenRestartErrorView::GenerateSnapshotWhenOneExists(slot, directory))
    } else {
        Ok(())
    }
}

/// Checks a snapshot that exists at `slot` in `directory` against the slot
/// of the intended one.
pub fn check_slot_smaller_than_intended_snapshot_slot(
    slot: Slot,
    intended_snapshot_slot: Slot,
    directory: &String,
) -> (r: Result<(), WenRestartError>)
    ensures
        match r {
            Ok(()) => slot_checked(slot, intended_snapshot_slot, directory@) is Ok,
            Err(e) => slot_checked(slot, intended_snapshot_slot, directory@) == Err::<
                (),
                WenRestartErrorView,
            >(e@),
        },
{
    if slot > intended_snapshot_slot {
        Err(WenRestartError::FutureSnapshotExists(intended_snapshot_slot, slot, directory.clone()))
    } else if slot == intended_snapshot_slot {
        Err(WenRestartError::GenerateSnapshotWhenOneExists(slot, directory.clone()))
    } else {
        Ok(())
    }
}

/// The snapshots that the validator holds on disk.
#[derive(Debug, PartialEq, Eq)]
pub struct SnapshotArchives {
    /// Whether the validator is configured to generate snapshots.
    pub should_generate_snapshots: bool,
    /// The directory of the full snapshots.
    pub full_snapshot_archives_dir: String,
    /// The directory of the incremental snapshots.
    pub incremental_snapshot_archives_dir: String,
    /// The slot of the latest full snapshot, if there is one.
    pub highest_full_snapshot_slot: Option<Slot>,
    /// The slot of the latest incremental snapshot on top of the latest full
    /// one, if there is one.
    pub highest_incremental_snapshot_slot: Option<Slot>,
}

/// The kind of snapshot to produce at the agreed slot. A validator that
/// generates snapshots and holds a full one builds on it, provided that the
/// full one and the latest incremental one on top of it are earlier than the
/// agreed slot. Any other validator produces a full snapshot: what it holds
/// may be too old to build on.
pub open spec fn snapshot_kind(archives: SnapshotArchives, my_heaviest_fork_slot: Slot) -> Result<
    SnapshotKind,
    WenRestartErrorView,
> {
    if archives.should_generate_snapshots && archives.highest_full_snapshot_slot is Some {
        let full = archives.highest_full_snapshot_slot.unwrap();
        match slot_checked(full, my_heaviest_fork_slot, archives.full_snapshot_archives_dir@) {
            Err(e) => Err(e),
            Ok(()) => match archives.highest_incremental_snapshot_slot {
                Some(incremental) => match slot_checked(
                    incremental,
                    my_heaviest_fork_slot,
                    archives.incremental_snapshot_archives_dir@,
                ) {
                    Err(e) => Err(e),
                    Ok(()) => Ok(SnapshotKind::Incremental(full)),
                },
                None => Ok(SnapshotKind::Incremental(full)),
            },
        }
    } else {
        Ok(SnapshotKind::Full)
    }
}

/// What producing the snapshot begins with: the bank at the agreed slot
/// must exist, and the kind of snapshot follows from what is on disk.
pub open spec fn snapshot_planned(
    bank_exists: bool,
    archives: SnapshotArchives,
    my_heaviest_fork_slot: Slot,
) -> Result<SnapshotKind, WenRestartErrorView> {
    if !bank_exists {
        Err(WenRestartErrorView::BlockNotFound(my_heaviest_fork_slot))
    } else {
        snapshot_kind(archives, my_heaviest_fork_slot)
    }
}

/// Decides what snapshot to produce at the agreed slot. `bank_exists` says
/// whether the bank forks hold a bank at that slot.
pub fn plan_snapshot(
    bank_exists: bool,
    archives: &SnapshotArchives,
    my_heaviest_fork_slot: Slot,
) -> (r: Result<SnapshotKind, WenRestartError>)
    ensures
        match r {
            Ok(kind) => snapshot_planned(bank_exists, *archives, my_heaviest_fork_slot) == Ok::<
                SnapshotKind,
                WenRestartErrorView,
            >(kind),
            Err(e) => snapshot_planned(bank_exists, *archives, my_heaviest_fork_slot) == Err::<
                SnapshotKind,
                WenRestartErrorView,
            >(e@),
        },
{
    if !bank_exists {
        return Err(WenRestartError::BlockNotFound(my_heaviest_fork_slot));
    }
    let full_snapshot_slot = if archives.should_generate_snapshots {
        archives.highest_full_snapshot_slot
    } else {
        None
    };
    match full_snapshot_slot {
        Some(full_snapshot_slot) => {
            match check_slot_smaller_than_intended_snapshot_slot(
                full_snapshot_slot,
                my_heaviest_fork_slot,
                &archives.full_snapshot_archives_dir,
            ) {
                Err(e) => {
                    return Err(e);
                },
                Ok(()) => {},
            }
            match archives.highest_incremental_snapshot_slot {
                Some(incremental_snapshot_slot) => {
                    match check_slot_smaller_than_intended_snapshot_slot(
                        incremental_snapshot_slot,
                        my_heaviest_fork_slot,
                        &archives.incremental_snapshot_archives_dir,
                    ) {
                        Err(e) => {
                            return Err(e);
                        },
                        Ok(()) => {},
                    }
                },
                None => {},
            }
            Ok(SnapshotKind::Incremental(full_snapshot_slot))
        },
        None => Ok(SnapshotKind::Full),
    }
}

/// What the caller reports while the snapshot is produced.
#[derive(Debug, PartialEq, Eq)]
pub enum SnapshotEvent {
    /// Nothing has been done yet.
    Begin,
    /// The background service that works on the accounts has stopped, and so
    /// has the verification that began at startup. `archives` is what the
    /// disk holds now.
    ServiceStopped { archives: SnapshotArchives },
    /// The archive that was asked for has been written to `path`. `archives`
    /// is what the disk held before it was written.
    Archived { archives: SnapshotArchives, path: String },
}

/// What the caller has to do next while the snapshot is produced.
#[derive(Debug, PartialEq)]
pub enum SnapshotAction {
    /// Stop the background service that works on the accounts, wait until it
    /// has stopped and until the verification that began at startup is over,
    /// and report `ServiceStopped`.
    StopBackgroundService,
    /// Write an archive of this kind of the bank at the agreed slot, and
    /// report `Archived`.
    Archive(SnapshotKind),
    /// Purge the bank snapshots, which may lie past the agreed slot. The
    /// snapshot is there: this is what the phase has come back with.
    Report(PhaseOutcome),
}

/// One step of producing the snapshot at the agreed slot, in this order.
/// The agreed slot is a hard fork: `hard_forks` is the list with the slot
/// among them. `bankhash` is the hash that the bank at the agreed slot has at
/// the time of the step, `None` where the bank forks hold no such bank:
/// without a bank nothing is produced. The first step has the background
/// service stopped. The step after it looks at what is on disk: with a
/// snapshot at the agreed slot or after it nothing is produced, and otherwise
/// the archive is asked for. The last step reports where the archive lies, the
/// hash that the bank has now that the archive is written, and the shred
/// version that follows from the genesis hash and the hard forks.
pub open spec fn snapshot_step(
    genesis_hash: Seq<u8>,
    hard_forks: Seq<(u64, usize)>,
    my_heaviest_fork_slot: Slot,
    bankhash: Option<crate::hash::Hash>,
    event: SnapshotEvent,
) -> Result<SnapshotAction, WenRestartErrorView> {
    match bankhash {
        None => Err(WenRestartErrorView::BlockNotFound(my_heaviest_fork_slot)),
        Some(hash) => match event {
            SnapshotEvent::Begin => Ok(SnapshotAction::StopBackgroundService),
            SnapshotEvent::ServiceStopped { archives } => match snapshot_kind(
                archives,
                my_heaviest_fork_slot,
            ) {
                Err(e) => Err(e),
                Ok(kind) => Ok(SnapshotAction::Archive(kind)),
            },
            SnapshotEvent::Archived { archives, path } => match snapshot_kind(
                archives,
                my_heaviest_fork_slot,
            ) {
                Err(e) => Err(e),
                Ok(_) => Ok(
                    SnapshotAction::Report(
                        PhaseOutcome::SnapshotGenerated {
                            path,
                            slot: my_heaviest_fork_slot,
                            bankhash: hash,
                            shred_version: shred_version_of(genesis_hash, hard_forks),
                        },
                    ),
                ),
            },
        },
    }
}

/// Produces the snapshot at the agreed slot, step by step: takes what the
/// caller reports, and says what to do next or why no snapshot is produced.
/// It begins with the report `Begin`. The agreed slot is made a hard fork at
/// every step, unless it is one already. `bankhash` is read anew for every
/// step: the hash handed in with `Archived` is the hash that the bank has once
/// the archive is written, and it is the one that is reported.
pub fn generate_snapshot(
    genesis_config_hash: crate::hash::Hash,
    hard_forks: &mut HardForks,
    my_heaviest_fork_slot: Slot,
    bankhash: Option<crate::hash::Hash>,
    event: SnapshotEvent,
) -> (r: Result<SnapshotAction, WenRestartError>)
    ensures
        is_hard_fork(hard_fork_list(*final(hard_forks)), my_heaviest_fork_slot),
        is_hard_fork(hard_fork_list(*old(hard_forks)), my_heaviest_fork_slot) ==> *final(hard_forks)
            == *old(hard_forks),
        !is_hard_fork(hard_fork_list(*old(hard_forks)), my_heaviest_fork_slot)
            ==> hard_forks_in_order(hard_fork_list(*final(hard_forks))),
        !is_hard_fork(hard_fork_list(*old(hard_forks)), my_heaviest_fork_slot) ==> hard_fork_list(
            *final(hard_forks),
        ).to_multiset() == hard_fork_list(*old(hard_forks)).push(
            (my_heaviest_fork_slot, 1),
        ).to_multiset(),
        match r {
            Ok(action) => snapshot_step(
                genesis_config_hash.bytes@,
                hard_fork_list(*final(hard_forks)),
                my_heaviest_fork_slot,
                bankhash,
                event,
            ) == Ok::<SnapshotAction, WenRestartErrorView>(action),
            Err(e) => snapshot_step(
                genesis_config_hash.bytes@,
                hard_fork_list(*final(hard_forks)),
                my_heaviest_fork_slot,
                bankhash,
                event,
            ) == Err::<SnapshotAction, WenRestartErrorView>(e@),
        },
{
    let _ = register_restart_hard_fork(hard_forks, my_heaviest_fork_slot);
    let bankhash = match bankhash {
        Some(bankhash) => bankhash,
        None => {
            return Err(WenRestartError::BlockNotFound(my_heaviest_fork_slot));
        },
    };
    match event {
        SnapshotEvent::Begin => Ok(SnapshotAction::StopBackgroundService),
        SnapshotEvent::ServiceStopped { archives } => {
            match plan_snapshot(true, &archives, my_heaviest_fork_slot) {
                Ok(kind) => Ok(SnapshotAction::Archive(kind)),
                Err(e) => Err(e),
            }
        },
        SnapshotEvent::Archived { archives, path } => {
            match plan_snapshot(true, &archives, my_heaviest_fork_slot) {
                Ok(_) => {
                    let new_shred_version = compute_shred_version(
                        &genesis_config_hash.bytes,
                        hard_forks,
                    );
                    Ok(
                        SnapshotAction::Report(
                            PhaseOutcome::SnapshotGenerated {
                                path,
                                slot: my_heaviest_fork_slot,
                                bankhash,
                                shred_version: new_shred_version,
                            },
                        ),
                    )
                },
                Err(e) => Err(e),
            }
        },
    }
}

} // verus!
