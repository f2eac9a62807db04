//! Bookkeeping that lets the notifiers of one bank wait for each other.
//!
//! The state is plain data: the caller puts it behind its own lock and blocks
//! on its own condition variable while a tracker says that a dependency is
//! still pending.

use std::collections::HashMap;
use vstd::prelude::*;

verus! {

/// Tracks, for one bank, whether the transaction status service has delivered
/// its notification.
#[derive(Clone, Copy, Debug, Default)]
pub struct BankNotificationDependencyTracker {
    pub bank_slot: u64,
    pub transaction_status_service_notified: bool,
}

impl BankNotificationDependencyTracker {
    /// A tracker for the bank at `bank_slot`, with nothing delivered yet.
    pub fn new(bank_slot: u64) -> (tracker: Self)
        ensures
            tracker.bank_slot == bank_slot,
            !tracker.transaction_status_service_notified,
    {
        BankNotificationDependencyTracker { bank_slot, transaction_status_service_notified: false }
    }

    /// Whether a caller that depends on the notification still has to wait:
    /// true until the notification has been delivered.
    pub fn wait_for_unfinished_dependencies(&self) -> (pending: bool)
        ensures
            pending == !self.transaction_status_service_notified,
    {
        !self.transaction_status_service_notified
    }

    /// Records that the transaction status service has delivered its
    /// notification for this bank.
    pub fn mark_transaction_status_service_notified(&mut self)
        ensures
            final(self).transaction_status_service_notified,
            final(self).bank_slot == old(self).bank_slot,
    {
        self.transaction_status_service_notified = true;
    }
}

/// The trackers of all banks, by slot.
pub struct EventNotificationSynchronizer {
    pub bank_slot_to_notification_tracker: HashMap<u64, BankNotificationDependencyTracker>,
}

impl View for EventNotificationSynchronizer {
    type V = Map<u64, BankNotificationDependencyTracker>;

    open spec fn view(&self) -> Self::V {
        self.bank_slot_to_notification_tracker@
    }
}

impl Default for EventNotificationSynchronizer {
    fn default() -> (synchronizer: Self)
        ensures
            synchronizer@ == Map::<u64, BankNotificationDependencyTracker>::empty(),
    {
        EventNotificationSynchronizer { bank_slot_to_notification_tracker: HashMap::new() }
    }
}

/// The tracker that a bank starts with.
pub open spec fn fresh_tracker(bank_slot: u64) -> BankNotificationDependencyTracker {
    BankNotificationDependencyTracker { bank_slot, transaction_status_service_notified: false }
}

impl EventNotificationSynchronizer {
    /// Starts a fresh tracker for the bank at `bank_slot`, in place of any
    /// earlier one, and returns it.
    pub fn create_bank_tracker(&mut self, bank_slot: u64) -> (tracker:
        BankNotificationDependencyTracker)
        ensures
            tracker == fresh_tracker(bank_slot),
            final(self)@ == old(self)@.insert(bank_slot, tracker),
    {
        broadcast use vstd::std_specs::hash::group_hash_axioms;

        let tracker = BankNotificationDependencyTracker::new(bank_slot);
        self.bank_slot_to_notification_tracker.insert(bank_slot, tracker);
        tracker
    }

    /// Returns the tracker of the bank at `bank_slot`, starting a fresh one
    /// if the bank has none.
    pub fn get_or_create_bank_tracker(&mut self, bank_slot: u64) -> (tracker:
        BankNotificationDependencyTracker)
        ensures
            old(self)@.contains_key(bank_slot) ==> tracker == old(self)@[bank_slot],
            old(self)@.contains_key(bank_slot) ==> final(self)@ == old(self)@,
            !old(self)@.contains_key(bank_slot) ==> tracker == fresh_tracker(bank_slot),
            !old(self)@.contains_key(bank_slot) ==> final(self)@ == old(self)@.insert(
                bank_slot,
                tracker,
            ),
    {
        broadcast use vstd::std_specs::hash::group_hash_axioms;

        match self.bank_slot_to_notification_tracker.get(&bank_slot) {
            Some(tracker) => *tracker,
            None => self.create_bank_tracker(bank_slot),
        }
    }

    /// Records that the transaction status service has delivered its
    /// notification for the bank at `bank_slot`, starting its tracker if the
    /// bank has none.
    pub fn mark_transaction_status_service_notified(&mut self, bank_slot: u64)
        ensures
            final(self)@ == old(self)@.insert(
                bank_slot,
                (BankNotificationDependencyTracker {
                    bank_slot: if old(self)@.contains_key(bank_slot) {
                        old(self)@[bank_slot].bank_slot
                    } else {
                        bank_slot
                    },
                    transaction_status_service_notified: true,
                }),
            ),
    {
        broadcast use vstd::std_specs::hash::group_hash_axioms;

        let mut tracker = self.get_or_create_bank_tracker(bank_slot);
        tracker.mark_transaction_status_service_notified();
        self.bank_slot_to_notification_tracker.insert(bank_slot, tracker);
    }
}

} // verus!
