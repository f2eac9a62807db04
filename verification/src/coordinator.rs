//! The exchange of the heaviest fork with the coordinator: the coordinator
//! publishes its fork, and every other validator waits for it, repairs what it
//! lacks of it, and checks it against its own.

use crate::driver::{completed_phase, PhaseOutcome, WenRestartConfig};
use crate::error::{WenRestartError, WenRestartErrorView};
use crate::heaviest_fork_aggregate::RestartHeaviestFork;
use crate::progress::{
    HeaviestForkRecord, HeaviestForkRecordView, RestartState, WenRestartProgress,
    WenRestartProgressView,
};
use crate::state::{initial_state, next_state, WenRestartProgressInternalStateView};
use crate::pubkey::Pubkey;
use crate::root_bank::{first_wanted, lemma_first_wanted, lemma_none_wanted};
use crate::slots::{contains_slot, sort_all_slots, sorted};
use solana_clock::Slot;
use vstd::prelude::*;

verus! {

/// The record of the heaviest fork that the coordinator has published.
pub open spec fn coordinator_record(message: RestartHeaviestFork) -> HeaviestForkRecordView {
    HeaviestForkRecordView {
        slot: message.last_slot,
        bankhash: message.last_slot_hash.text(),
        total_active_stake: 0,
        shred_version: message.shred_version as u32,
        wallclock: message.wallclock,
        from: message.from.text(),
    }
}

/// The first of the messages that is from the coordinator.
pub open spec fn from_coordinator(
    messages: Seq<RestartHeaviestFork>,
    wen_restart_coordinator: Pubkey,
) -> Option<RestartHeaviestFork> {
    first_wanted(messages, |message: RestartHeaviestFork| message.from == wen_restart_coordinator)
}

/// Whether `r` and `after` are what looking for the heaviest fork of the
/// coordinator comes to: a validator about to exit stops; the first message of
/// the coordinator is recorded, and its slot and hash are returned; without
/// such a message nothing changes, and the caller looks again later.
pub open spec fn coordinator_heard(
    r: Result<Option<(Slot, crate::hash::Hash)>, WenRestartError>,
    after: WenRestartProgressView,
    wen_restart_coordinator: Pubkey,
    messages: Seq<RestartHeaviestFork>,
    exit: bool,
    before: WenRestartProgressView,
) -> bool {
    if exit {
        &&& r matches Err(e)
        &&& e@ == WenRestartErrorView::Exiting
        &&& after == before
    } else {
        match from_coordinator(messages, wen_restart_coordinator) {
            Some(message) => {
                &&& r == Ok::<Option<(Slot, crate::hash::Hash)>, WenRestartError>(
                    Some((message.last_slot, message.last_slot_hash)),
                )
                &&& after == (WenRestartProgressView {
                    coordinator_heaviest_fork: Some(coordinator_record(message)),
                    ..before
                })
            },
            None => {
                &&& r == Ok::<Option<(Slot, crate::hash::Hash)>, WenRestartError>(None)
                &&& after == before
            },
        }
    }
}

/// Looks for the heaviest fork of the coordinator among the messages that
/// gossip has brought since the last look.
pub fn receive_restart_heaviest_fork(
    wen_restart_coordinator: Pubkey,
    new_messages: &Vec<RestartHeaviestFork>,
    exit: bool,
    progress: &mut WenRestartProgress,
) -> (r: Result<Option<(Slot, crate::hash::Hash)>, WenRestartError>)
    ensures
        coordinator_heard(
            r,
            final(progress)@,
            wen_restart_coordinator,
            new_messages@,
            exit,
            old(progress)@,
        ),
{
    if exit {
        return Err(WenRestartError::Exiting);
    }
    let ghost wanted = |message: RestartHeaviestFork| message.from == wen_restart_coordinator;
    let mut i: usize = 0;
    while i < new_messages.len()
        invariant
            i <= new_messages@.len(),
            !exit,
            *progress == *old(progress),
            wanted == |message: RestartHeaviestFork| message.from == wen_restart_coordinator,
            forall|j: int| 0 <= j < i ==> !wanted(#[trigger] new_messages@[j]),
        decreases new_messages@.len() - i,
    {
        let new_heaviest_fork = new_messages[i];
        if new_heaviest_fork.from == wen_restart_coordinator {
            proof {
                lemma_first_wanted(new_messages@, wanted, i as int);
            }
            let coordinator_heaviest_slot = new_heaviest_fork.last_slot;
            let coordinator_heaviest_hash = new_heaviest_fork.last_slot_hash;
            progress.coordinator_heaviest_fork = Some(
                HeaviestForkRecord {
                    slot: coordinator_heaviest_slot,
                    bankhash: coordinator_heaviest_hash.to_string(),
                    total_active_stake: 0,
                    wallclock: new_heaviest_fork.wallclock,
                    shred_version: new_heaviest_fork.shred_version as u32,
                    from: new_heaviest_fork.from.to_string(),
                },
            );
            return Ok(Some((coordinator_heaviest_slot, coordinator_heaviest_hash)));
        }
        i += 1;
    }
    proof {
        lemma_none_wanted(new_messages@, wanted);
    }
    Ok(None)
}

/// A block on the way from a slot back to the root, as the ledger links
/// the blocks.
#[derive(Clone, Copy, Debug, PartialEq, Eq, Structural)]
pub struct Ancestor {
    pub slot: Slot,
    /// Whether the ledger holds the whole block.
    pub is_full: bool,
}

/// How many of the ancestors at the head of a list, among its first `n`, lie
/// after `limit`.
pub open spec fn ancestors_after(ancestors: Seq<Ancestor>, limit: Slot, n: int) -> int
    decreases n,
{
    if n <= 0 {
        0
    } else if ancestors_after(ancestors, limit, n - 1) == n - 1 && ancestors[n - 1].slot > limit {
        n
    } else {
        ancestors_after(ancestors, limit, n - 1)
    }
}

/// The slots among the first `n` ancestors whose blocks are not full.
pub open spec fn not_full(ancestors: Seq<Ancestor>, n: int) -> Seq<Slot>
    decreases n,
{
    if n <= 0 {
        Seq::empty()
    } else if ancestors[n - 1].is_full {
        not_full(ancestors, n - 1)
    } else {
        not_full(ancestors, n - 1).push(ancestors[n - 1].slot)
    }
}

/// The slots to repair before the heaviest fork of the coordinator can be
/// checked: where the ledger does not know the slot of the coordinator, that
/// slot; otherwise every block from that slot back to the own heaviest slot,
/// that slot left out, that is not full.
pub open spec fn slots_to_repair(
    my_heaviest_fork_slot: Slot,
    heaviest_slot: Slot,
    ancestors: Option<Seq<Ancestor>>,
) -> Seq<Slot> {
    match ancestors {
        Some(chain) => not_full(
            chain,
            ancestors_after(chain, my_heaviest_fork_slot, chain.len() as int),
        ),
        None => seq![heaviest_slot],
    }
}

/// Says which slots to repair on the fork of the coordinator. `ancestors`
/// holds the slot of the coordinator and its ancestors as the ledger links
/// them, the slot itself first, and is `None` where the ledger does not know
/// that slot. An empty answer means that every block is full; otherwise the
/// caller publishes the slots, waits, and asks again.
pub fn repair_heaviest_fork(
    my_heaviest_fork_slot: Slot,
    heaviest_slot: Slot,
    exit: bool,
    ancestors: Option<&Vec<Ancestor>>,
) -> (r: Result<Vec<Slot>, WenRestartError>)
    ensures
        match r {
            Ok(to_repair) => !exit && to_repair@ == slots_to_repair(
                my_heaviest_fork_slot,
                heaviest_slot,
                match ancestors {
                    Some(chain) => Some(chain@),
                    None => None,
                },
            ),
            Err(e) => exit && e@ == WenRestartErrorView::Exiting,
        },
{
    if exit {
        return Err(WenRestartError::Exiting);
    }
    let mut to_repair: Vec<Slot> = Vec::new();
    match ancestors {
        Some(chain) => {
            let mut i: usize = 0;
            while i < chain.len() && chain[i].slot > my_heaviest_fork_slot
                invariant
                    i <= chain@.len(),
                    ancestors_after(chain@, my_heaviest_fork_slot, i as int) == i,
                    to_repair@ == not_full(chain@, i as int),
                decreases chain@.len() - i,
            {
                if !chain[i].is_full {
                    to_repair.push(chain[i].slot);
                }
                i += 1;
            }
            proof {
                lemma_ancestors_after(chain@, my_heaviest_fork_slot, i as int, chain@.len() as int);
            }
        },
        None => {
            to_repair.push(heaviest_slot);
        },
    }
    Ok(to_repair)
}

/// Once an ancestor does not lie after the limit, no later one is counted.
pub proof fn lemma_ancestors_after(ancestors: Seq<Ancestor>, limit: Slot, at: int, n: int)
    requires
        0 <= at <= n <= ancestors.len(),
        ancestors_after(ancestors, limit, at) == at,
        at < ancestors.len() ==> ancestors[at].slot <= limit,
    ensures
        ancestors_after(ancestors, limit, n) == at,
    decreases n,
{
    if at < n {
        lemma_ancestors_after(ancestors, limit, at, n - 1);
    }
}

/// How many of the slots at the head of a list, among its first `n`, are no
/// earlier than `limit`.
pub open spec fn slots_from(slots: Seq<Slot>, limit: Slot, n: int) -> int
    decreases n,
{
    if n <= 0 {
        0
    } else if slots_from(slots, limit, n - 1) == n - 1 && slots[n - 1] >= limit {
        n
    } else {
        slots_from(slots, limit, n - 1)
    }
}

/// The ancestors of the slot of the coordinator that are no earlier than the
/// root: the head of the list up to the first slot before the root.
pub open spec fn ancestors_from_root(coordinator_ancestors: Seq<Slot>, root_slot: Slot) -> Seq<
    Slot,
> {
    coordinator_ancestors.take(
        slots_from(coordinator_ancestors, root_slot, coordinator_ancestors.len() as int),
    )
}

/// Whether the fork of the coordinator and the own fork are one: the fork of
/// the coordinator must go through the root, and, of the two heaviest slots,
/// the earlier must be an ancestor of the later. Otherwise the slot named is
/// the one that is not on the fork of the coordinator, or that the slot of the
/// coordinator is not an ancestor of.
pub open spec fn fork_checked(
    my_heaviest_fork_slot: Slot,
    coordinator_heaviest_slot: Slot,
    root_slot: Slot,
    coordinator_ancestors: Seq<Slot>,
    my_ancestors: Seq<Slot>,
) -> Result<(), WenRestartErrorView> {
    let on_fork = ancestors_from_root(coordinator_ancestors, root_slot);
    if !on_fork.contains(root_slot) {
        Err(
            WenRestartErrorView::HeaviestForkOnLeaderOnDifferentFork(
                coordinator_heaviest_slot,
                root_slot,
            ),
        )
    } else if coordinator_heaviest_slot > my_heaviest_fork_slot && !on_fork.contains(
        my_heaviest_fork_slot,
    ) {
        Err(
            WenRestartErrorView::HeaviestForkOnLeaderOnDifferentFork(
                coordinator_heaviest_slot,
                my_heaviest_fork_slot,
            ),
        )
    } else if coordinator_heaviest_slot < my_heaviest_fork_slot && !my_ancestors.contains(
        coordinator_heaviest_slot,
    ) {
        Err(
            WenRestartErrorView::HeaviestForkOnLeaderOnDifferentFork(
                coordinator_heaviest_slot,
                my_heaviest_fork_slot,
            ),
        )
    } else {
        Ok(())
    }
}

/// Checks that the fork of the coordinator and the own fork are one, and
/// returns the slots to replay for the bank hash at the slot of the
/// coordinator: its ancestors from the root on, in ascending order.
/// `coordinator_ancestors` holds the slot of the coordinator and its ancestors
/// as the ledger links them, the slot itself first; `my_ancestors` holds the
/// ancestors of the own heaviest slot, without that slot.
pub fn check_coordinator_fork(
    my_heaviest_fork_slot: Slot,
    coordinator_heaviest_slot: Slot,
    root_slot: Slot,
    coordinator_ancestors: &Vec<Slot>,
    my_ancestors: &Vec<Slot>,
) -> (r: Result<Vec<Slot>, WenRestartError>)
    ensures
        match r {
            Ok(to_replay) => {
                &&& fork_checked(
                    my_heaviest_fork_slot,
                    coordinator_heaviest_slot,
                    root_slot,
                    coordinator_ancestors@,
                    my_ancestors@,
                ) is Ok
                &&& sorted(to_replay@)
                &&& to_replay@.to_multiset() == ancestors_from_root(
                    coordinator_ancestors@,
                    root_slot,
                ).to_multiset()
            },
            Err(e) => fork_checked(
                my_heaviest_fork_slot,
                coordinator_heaviest_slot,
                root_slot,
                coordinator_ancestors@,
                my_ancestors@,
            ) == Err::<(), WenRestartErrorView>(e@),
        },
{
    let mut coordinator_heaviest_slot_ancestors: Vec<Slot> = Vec::new();
    let mut i: usize = 0;
    while i < coordinator_ancestors.len() && coordinator_ancestors[i] >= root_slot
        invariant
            i <= coordinator_ancestors@.len(),
            slots_from(coordinator_ancestors@, root_slot, i as int) == i,
            coordinator_heaviest_slot_ancestors@ == coordinator_ancestors@.take(i as int),
        decreases coordinator_ancestors@.len() - i,
    {
        coordinator_heaviest_slot_ancestors.push(coordinator_ancestors[i]);
        assert(coordinator_ancestors@.take(i + 1) =~= coordinator_ancestors@.take(i as int).push(
            coordinator_ancestors@[i as int],
        ));
        i += 1;
    }
    proof {
        lemma_slots_from(
            coordinator_ancestors@,
            root_slot,
            i as int,
            coordinator_ancestors@.len() as int,
        );
    }
    sort_all_slots(&mut coordinator_heaviest_slot_ancestors);
    if !contains_slot(&coordinator_heaviest_slot_ancestors, root_slot) {
        return Err(
            WenRestartError::HeaviestForkOnLeaderOnDifferentFork(
                coordinator_heaviest_slot,
                root_slot,
            ),
        );
    }
    if coordinator_heaviest_slot > my_heaviest_fork_slot && !contains_slot(
        &coordinator_heaviest_slot_ancestors,
        my_heaviest_fork_slot,
    ) {
        return Err(
            WenRestartError::HeaviestForkOnLeaderOnDifferentFork(
                coordinator_heaviest_slot,
                my_heaviest_fork_slot,
            ),
        );
    }
    if coordinator_heaviest_slot < my_heaviest_fork_slot && !contains_slot(
        my_ancestors,
        coordinator_heaviest_slot,
    ) {
        return Err(
            WenRestartError::HeaviestForkOnLeaderOnDifferentFork(
                coordinator_heaviest_slot,
                my_heaviest_fork_slot,
            ),
        );
    }
    Ok(coordinator_heaviest_slot_ancestors)
}

/// Once a slot is earlier than the limit, no later one is counted.
pub proof fn lemma_slots_from(slots: Seq<Slot>, limit: Slot, at: int, n: int)
    requires
        0 <= at <= n <= slots.len(),
        slots_from(slots, limit, at) == at,
        at < slots.len() ==> slots[at] < limit,
    ensures
        slots_from(slots, limit, n) == at,
    decreases n,
{
    if at < n {
        lemma_slots_from(slots, limit, at, n - 1);
    }
}

/// What a validator has to do next while it checks the heaviest fork of the
/// coordinator.
#[derive(Debug, PartialEq, Eq)]
pub enum VerifyAction {
    /// Publish these slots for repair, wait, and ask again with what the
    /// ledger then holds.
    Repair(Vec<Slot>),
    /// Find the bank hash at the slot of the coordinator by replaying these
    /// slots, and ask again with that hash.
    Replay(Vec<Slot>),
    /// The fork of the coordinator is the own fork, with the same bank hash.
    Verified,
}

/// The slots of a chain of blocks.
pub open spec fn chain_slots(chain: Seq<Ancestor>) -> Seq<Slot> {
    Seq::new(chain.len(), |i: int| chain[i].slot)
}

/// The chain of the coordinator as a model value.
pub open spec fn chain_view(coordinator_chain: Option<&Vec<Ancestor>>) -> Option<Seq<Ancestor>> {
    match coordinator_chain {
        Some(chain) => Some(chain@),
        None => None,
    }
}

/// Whether `r` is what one look at the heaviest fork of the coordinator comes
/// to. In this order: a validator about to exit stops, as long as it has no
/// bank hash yet; blocks that the ledger lacks on the fork of the coordinator
/// are repaired first; then the two forks must be one; then the bank hash at
/// the slot of the coordinator is found by replaying its ancestors from the
/// root on, in ascending order; and at last that hash must be the one that
/// the coordinator has published.
pub open spec fn coordinator_fork_verified(
    r: Result<VerifyAction, WenRestartError>,
    my_heaviest_fork_slot: Slot,
    coordinator_heaviest_slot: Slot,
    coordinator_heaviest_hash: crate::hash::Hash,
    root_slot: Slot,
    exit: bool,
    coordinator_chain: Option<Seq<Ancestor>>,
    my_ancestors: Seq<Slot>,
    my_bankhash: Option<crate::hash::Hash>,
) -> bool {
    let to_repair = slots_to_repair(
        my_heaviest_fork_slot,
        coordinator_heaviest_slot,
        coordinator_chain,
    );
    if exit && my_bankhash is None {
        r matches Err(e) && e@ == WenRestartErrorView::Exiting
    } else if to_repair.len() > 0 {
        r matches Ok(VerifyAction::Repair(slots)) && slots@ == to_repair
    } else {
        let coordinator_ancestors = chain_slots(coordinator_chain.unwrap());
        match fork_checked(
            my_heaviest_fork_slot,
            coordinator_heaviest_slot,
            root_slot,
            coordinator_ancestors,
            my_ancestors,
        ) {
            Err(different) => r matches Err(e) && e@ == different,
            Ok(()) => match my_bankhash {
                None => {
                    &&& r matches Ok(VerifyAction::Replay(slots))
                    &&& sorted(slots@)
                    &&& slots@.to_multiset() == ancestors_from_root(
                        coordinator_ancestors,
                        root_slot,
                    ).to_multiset()
                },
                Some(bankhash) => if bankhash == coordinator_heaviest_hash {
                    r matches Ok(VerifyAction::Verified)
                } else {
                    r matches Err(e) && e@ == WenRestartErrorView::BankHashMismatch(
                        coordinator_heaviest_slot,
                        bankhash,
                        coordinator_heaviest_hash,
                    )
                },
            },
        }
    }
}

/// Checks the heaviest fork of the coordinator against the own, step by
/// step: says what to do next, or that the fork is verified, or why it is
/// refused. `coordinator_chain` holds the slot of the coordinator and its
/// ancestors as the ledger links them, the slot itself first, and is `None`
/// where the ledger does not know that slot; `my_ancestors` holds the
/// ancestors of the own heaviest slot, without that slot; `my_bankhash` is
/// the bank hash found at the slot of the coordinator, `None` until the
/// replay that this function asks for has given one.
pub fn verify_coordinator_heaviest_fork(
    my_heaviest_fork_slot: Slot,
    coordinator_heaviest_slot: Slot,
    coordinator_heaviest_hash: &crate::hash::Hash,
    root_slot: Slot,
    exit: bool,
    coordinator_chain: Option<&Vec<Ancestor>>,
    my_ancestors: &Vec<Slot>,
    my_bankhash: Option<crate::hash::Hash>,
) -> (r: Result<VerifyAction, WenRestartError>)
    ensures
        coordinator_fork_verified(
            r,
            my_heaviest_fork_slot,
            coordinator_heaviest_slot,
            *coordinator_heaviest_hash,
            root_slot,
            exit,
            chain_view(coordinator_chain),
            my_ancestors@,
            my_bankhash,
        ),
{
    let to_repair = match repair_heaviest_fork(
        my_heaviest_fork_slot,
        coordinator_heaviest_slot,
        exit && my_bankhash.is_none(),
        coordinator_chain,
    ) {
        Ok(to_repair) => to_repair,
        Err(e) => {
            return Err(e);
        },
    };
    let chain = match coordinator_chain {
        Some(chain) if to_repair.len() == 0 => chain,
        _ => {
            return Ok(VerifyAction::Repair(to_repair));
        },
    };
    let mut coordinator_ancestors: Vec<Slot> = Vec::new();
    let mut i: usize = 0;
    while i < chain.len()
        invariant
            i <= chain@.len(),
            coordinator_ancestors@ == chain_slots(chain@).take(i as int),
        decreases chain@.len() - i,
    {
        coordinator_ancestors.push(chain[i].slot);
        assert(chain_slots(chain@).take(i + 1) =~= chain_slots(chain@).take(i as int).push(
            chain@[i as int].slot,
        ));
        i += 1;
    }
    assert(coordinator_ancestors@ =~= chain_slots(chain@));
    let to_replay = match check_coordinator_fork(
        my_heaviest_fork_slot,
        coordinator_heaviest_slot,
        root_slot,
        &coordinator_ancestors,
        my_ancestors,
    ) {
        Ok(to_replay) => to_replay,
        Err(e) => {
            return Err(e);
        },
    };
    match my_bankhash {
        None => Ok(VerifyAction::Replay(to_replay)),
        Some(my_bankhash) => {
            if my_bankhash != *coordinator_heaviest_hash {
                return Err(
                    WenRestartError::BankHashMismatch(
                        coordinator_heaviest_slot,
                        my_bankhash,
                        *coordinator_heaviest_hash,
                    ),
                );
            }
            Ok(VerifyAction::Verified)
        },
    }
}

/// A bank hash is compared with the one of the coordinator only once the two
/// forks are known to be one: where they are not, the fork is refused as a
/// different fork, whatever the bank hash.
pub proof fn lemma_fork_is_checked_before_hash(
    r: Result<VerifyAction, WenRestartError>,
    my_heaviest_fork_slot: Slot,
    coordinator_heaviest_slot: Slot,
    coordinator_heaviest_hash: crate::hash::Hash,
    root_slot: Slot,
    exit: bool,
    coordinator_chain: Seq<Ancestor>,
    my_ancestors: Seq<Slot>,
    my_bankhash: crate::hash::Hash,
)
    requires
        coordinator_fork_verified(
            r,
            my_heaviest_fork_slot,
            coordinator_heaviest_slot,
            coordinator_heaviest_hash,
            root_slot,
            exit,
            Some(coordinator_chain),
            my_ancestors,
            Some(my_bankhash),
        ),
        slots_to_repair(
            my_heaviest_fork_slot,
            coordinator_heaviest_slot,
            Some(coordinator_chain),
        ).len() == 0,
        fork_checked(
            my_heaviest_fork_slot,
            coordinator_heaviest_slot,
            root_slot,
            chain_slots(coordinator_chain),
            my_ancestors,
        ) is Err,
    ensures
        r matches Err(e) && e@ is HeaviestForkOnLeaderOnDifferentFork,
{
}

/// How the exchange of the heaviest fork ends for a validator. `E` is the
/// kind of failure that the check of the fork of the coordinator can end in.
#[derive(Debug, PartialEq)]
pub struct HeaviestForkExchange<E> {
    /// The slot to publish as the heaviest fork.
    pub publish_slot: Slot,
    /// The bank hash to publish with it.
    pub publish_hash: crate::hash::Hash,
    /// Whether the validator is about to fail: it then makes sure that what it
    /// publishes leaves gossip before it stops.
    pub flush_and_wait: bool,
    /// The fork that the cluster restarts from, or why the validator fails.
    pub outcome: Result<PhaseOutcome, E>,
}

/// Whether `exchange` is how the exchange ends. The coordinator publishes
/// its own heaviest fork, and that is the fork to restart from. Another
/// validator that has checked the fork of the coordinator publishes that fork,
/// and restarts from it. One whose check has failed, for whatever reason,
/// publishes its own fork all the same, so that the others see the
/// disagreement, and fails for that reason.
pub open spec fn exchanged<E>(
    exchange: HeaviestForkExchange<E>,
    my_heaviest_fork_slot: Slot,
    my_heaviest_fork_hash: crate::hash::Hash,
    config: WenRestartConfig,
    verified: Result<(Slot, crate::hash::Hash), E>,
) -> bool {
    if config.coordinates() {
        &&& exchange.publish_slot == my_heaviest_fork_slot
        &&& exchange.publish_hash == my_heaviest_fork_hash
        &&& !exchange.flush_and_wait
        &&& exchange.outcome == Ok::<PhaseOutcome, E>(
            PhaseOutcome::HeaviestForkAgreed {
                slot: my_heaviest_fork_slot,
                hash: my_heaviest_fork_hash,
            },
        )
    } else {
        match verified {
            Ok((slot, hash)) => {
                &&& exchange.publish_slot == slot
                &&& exchange.publish_hash == hash
                &&& !exchange.flush_and_wait
                &&& exchange.outcome == Ok::<PhaseOutcome, E>(
                    PhaseOutcome::HeaviestForkAgreed { slot, hash },
                )
            },
            Err(e) => {
                &&& exchange.publish_slot == my_heaviest_fork_slot
                &&& exchange.publish_hash == my_heaviest_fork_hash
                &&& exchange.flush_and_wait
                &&& exchange.outcome == Err::<PhaseOutcome, E>(e)
            },
        }
    }
}

/// Decides what a validator publishes as the heaviest fork and which fork it
/// restarts from. `verified` is read only where the validator is not the
/// coordinator: the fork of the coordinator if it has passed the check, or
/// the reason why it has not, whether the check has refused the fork or could
/// not be made.
pub fn send_and_receive_heaviest_fork<E>(
    my_heaviest_fork_slot: Slot,
    my_heaviest_fork_hash: crate::hash::Hash,
    config: &WenRestartConfig,
    verified: Result<(Slot, crate::hash::Hash), E>,
) -> (exchange: HeaviestForkExchange<E>)
    ensures
        exchanged(exchange, my_heaviest_fork_slot, my_heaviest_fork_hash, *config, verified),
{
    if config.is_coordinator() {
        HeaviestForkExchange {
            publish_slot: my_heaviest_fork_slot,
            publish_hash: my_heaviest_fork_hash,
            flush_and_wait: false,
            outcome: Ok(
                PhaseOutcome::HeaviestForkAgreed {
                    slot: my_heaviest_fork_slot,
                    hash: my_heaviest_fork_hash,
                },
            ),
        }
    } else {
        match verified {
            Ok((coordinator_slot, coordinator_hash)) => HeaviestForkExchange {
                publish_slot: coordinator_slot,
                publish_hash: coordinator_hash,
                flush_and_wait: false,
                outcome: Ok(
                    PhaseOutcome::HeaviestForkAgreed {
                        slot: coordinator_slot,
                        hash: coordinator_hash,
                    },
                ),
            },
            Err(e) => HeaviestForkExchange {
                publish_slot: my_heaviest_fork_slot,
                publish_hash: my_heaviest_fork_hash,
                flush_and_wait: true,
                outcome: Err(e),
            },
        }
    }
}

/// A follower that stops after the exchange resumes at the agreed slot.
/// Where a validator that is not the coordinator has heard the fork of the
/// coordinator and has left the exchange with it, the record that is then
/// written brings it back to the snapshot phase at the slot of the
/// coordinator, whatever the slot of its own heaviest fork is.
pub proof fn lemma_follower_resumes_at_agreed_slot<E>(
    heard: Result<Option<(Slot, crate::hash::Hash)>, WenRestartError>,
    before: WenRestartProgressView,
    progress: WenRestartProgressView,
    messages: Seq<RestartHeaviestFork>,
    exchange: HeaviestForkExchange<E>,
    my_heaviest_fork_slot: Slot,
    my_heaviest_fork_hash: crate::hash::Hash,
    config: WenRestartConfig,
    wallclock: u64,
    last_voted_fork: Seq<Slot>,
    last_vote_bankhash: crate::hash::Hash,
)
    requires
        !config.coordinates(),
        before.state == RestartState::HeaviestFork,
        before.my_heaviest_fork is Some,
        before.my_snapshot is None,
        coordinator_heard(
            heard,
            progress,
            config.wen_restart_coordinator,
            messages,
            false,
            before,
        ),
        heard matches Ok(Some(fork)) && exchanged(
            exchange,
            my_heaviest_fork_slot,
            my_heaviest_fork_hash,
            config,
            Ok::<(Slot, crate::hash::Hash), E>(fork),
        ),
    ensures
        ({
            let agreed = heard->Ok_0->Some_0;
            let left = WenRestartProgressInternalStateView::HeaviestFork {
                my_heaviest_fork_slot,
                my_heaviest_fork_hash,
            };
            &&& exchange.outcome matches Ok(outcome)
            &&& outcome == (PhaseOutcome::HeaviestForkAgreed { slot: agreed.0, hash: agreed.1 })
            &&& next_state(
                completed_phase(left, outcome, config, progress, wallclock).0,
                completed_phase(left, outcome, config, progress, wallclock).1,
            ) matches Ok((state, record))
            &&& state == (WenRestartProgressInternalStateView::GenerateSnapshot {
                my_heaviest_fork_slot: agreed.0,
                my_snapshot: None,
            })
            &&& initial_state(record, last_voted_fork, last_vote_bankhash) == Ok::<
                WenRestartProgressInternalStateView,
                WenRestartErrorView,
            >(state)
        }),
{
}

/// The fork that passes the check is one fork with the own: the slot of the
/// coordinator is not before the root, and of the two heaviest slots the
/// earlier is among the ancestors of the later.
pub proof fn lemma_checked_fork_is_one(
    my_heaviest_fork_slot: Slot,
    coordinator_heaviest_slot: Slot,
    root_slot: Slot,
    coordinator_ancestors: Seq<Slot>,
    my_ancestors: Seq<Slot>,
)
    requires
        fork_checked(
            my_heaviest_fork_slot,
            coordinator_heaviest_slot,
            root_slot,
            coordinator_ancestors,
            my_ancestors,
        ) is Ok,
        coordinator_ancestors.len() > 0 ==> coordinator_ancestors[0] == coordinator_heaviest_slot,
    ensures
        coordinator_heaviest_slot >= root_slot,
        coordinator_ancestors.contains(root_slot),
        coordinator_heaviest_slot > my_heaviest_fork_slot ==> coordinator_ancestors.contains(
            my_heaviest_fork_slot,
        ),
        coordinator_heaviest_slot < my_heaviest_fork_slot ==> my_ancestors.contains(
            coordinator_heaviest_slot,
        ),
{
    let n = coordinator_ancestors.len() as int;
    let kept = slots_from(coordinator_ancestors, root_slot, n);
    lemma_slots_from_bounds(coordinator_ancestors, root_slot, n);
    let on_fork = ancestors_from_root(coordinator_ancestors, root_slot);
    lemma_slots_from_head(coordinator_ancestors, root_slot, n, 0);
}

/// No more slots are counted than there are.
pub proof fn lemma_slots_from_bounds(slots: Seq<Slot>, limit: Slot, n: int)
    requires
        0 <= n <= slots.len(),
    ensures
        0 <= slots_from(slots, limit, n) <= n,
    decreases n,
{
    if n > 0 {
        lemma_slots_from_bounds(slots, limit, n - 1);
    }
}

/// Every slot that is counted is no earlier than the limit.
pub proof fn lemma_slots_from_head(slots: Seq<Slot>, limit: Slot, n: int, at: int)
    requires
        0 <= n <= slots.len(),
        0 <= at < slots_from(slots, limit, n),
    ensures
        slots[at] >= limit,
    decreases n,
{
    if n > 0 {
        lemma_slots_from_bounds(slots, limit, n - 1);
        if slots_from(slots, limit, n - 1) == n - 1 && slots[n - 1] >= limit {
            if at < n - 1 {
                lemma_slots_from_head(slots, limit, n - 1, at);
            }
        } else {
            lemma_slots_from_head(slots, limit, n - 1, at);
        }
    }
}

} // verus!
