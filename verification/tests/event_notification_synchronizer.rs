use wen_restart::event_notification_synchronizer::{
    BankNotificationDependencyTracker, EventNotificationSynchronizer,
};

#[test]
fn test_create_bank_tracker() {
    let mut manager = EventNotificationSynchronizer::default();
    let tracker52 = manager.create_bank_tracker(52);
    let tracker37 = manager.create_bank_tracker(37);
    let tracker13 = manager.create_bank_tracker(13);

    // already exists, but that's ok
    let tracker52prime = manager.create_bank_tracker(52);

    assert_ne!(tracker52.bank_slot, tracker37.bank_slot);
    assert_ne!(tracker52.bank_slot, tracker13.bank_slot);

    assert_eq!(tracker52.bank_slot, tracker52prime.bank_slot);
}

#[test]
fn test_get_or_create_bank_tracker() {
    let mut manager = EventNotificationSynchronizer::default();

    let tracker52 = manager.get_or_create_bank_tracker(52);
    let tracker37 = manager.get_or_create_bank_tracker(37);
    let tracker13 = manager.get_or_create_bank_tracker(13);
    let tracker52prime = manager.get_or_create_bank_tracker(52);

    assert_ne!(tracker52.bank_slot, tracker37.bank_slot);
    assert_ne!(tracker52.bank_slot, tracker13.bank_slot);

    assert_eq!(tracker52.bank_slot, tracker52prime.bank_slot);
}

#[test]
fn test_wait_for_unfinished_dependencies() {
    let mut manager = EventNotificationSynchronizer::default();
    assert!(manager.get_or_create_bank_tracker(52).wait_for_unfinished_dependencies());
    assert!(manager.get_or_create_bank_tracker(37).wait_for_unfinished_dependencies());

    manager.mark_transaction_status_service_notified(52);
    manager.mark_transaction_status_service_notified(37);

    assert!(!manager.get_or_create_bank_tracker(52).wait_for_unfinished_dependencies());
    assert!(!manager.get_or_create_bank_tracker(37).wait_for_unfinished_dependencies());
}

#[test]
fn test_wait_for_unfinished_dependencies_reverse_order() {
    let mut manager = EventNotificationSynchronizer::default();
    manager.mark_transaction_status_service_notified(37);
    manager.mark_transaction_status_service_notified(52);

    assert!(!manager.get_or_create_bank_tracker(52).wait_for_unfinished_dependencies());
    assert!(!manager.get_or_create_bank_tracker(37).wait_for_unfinished_dependencies());
    assert!(manager.get_or_create_bank_tracker(13).wait_for_unfinished_dependencies());
}

#[test]
fn tracker_starts_pending_and_is_marked_once() {
    let mut tracker = BankNotificationDependencyTracker::new(7);
    assert_eq!(tracker.bank_slot, 7);
    assert!(tracker.wait_for_unfinished_dependencies());
    tracker.mark_transaction_status_service_notified();
    assert!(!tracker.wait_for_unfinished_dependencies());
    tracker.mark_transaction_status_service_notified();
    assert!(!tracker.wait_for_unfinished_dependencies());
    assert_eq!(tracker.bank_slot, 7);
}

#[test]
fn create_replaces_a_marked_tracker() {
    let mut manager = EventNotificationSynchronizer::default();
    manager.mark_transaction_status_service_notified(52);
    let again = manager.create_bank_tracker(52);
    assert!(again.wait_for_unfinished_dependencies());
    assert!(manager.get_or_create_bank_tracker(52).wait_for_unfinished_dependencies());
}
