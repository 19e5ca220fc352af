use asset_lease::lease::{Lease, LeaseBook, LeaseError, LeaseStatus};
use asset_lease::ledger::AssetLeaseContract;

fn status(total: u64, active: u64, completed: u64, pending: u64) -> LeaseStatus {
    LeaseStatus {
        total_leases: total,
        active_leases: active,
        completed_leases: completed,
        pending_leases: pending,
    }
}

fn create(ledger: &mut AssetLeaseContract, now: u64, name: &str, duration: u64, amount: i128) -> u64 {
    ledger.create_lease(
        now,
        name.to_string(),
        "physical".to_string(),
        "alice".to_string(),
        "bob".to_string(),
        duration,
        amount,
    )
}

#[test]
fn status_is_zero_before_any_creation() {
    let ledger = AssetLeaseContract::new();
    assert_eq!(ledger.get_status(), status(0, 0, 0, 0));
}

#[test]
fn full_lifecycle_scenario() {
    let t: u64 = 1_700_000_000;
    let mut ledger = AssetLeaseContract::new();

    let a = create(&mut ledger, t, "excavator", 3600, 100);
    assert_eq!(a, 1);
    let lease_a = ledger.get_lease(1).unwrap();
    assert_eq!(lease_a.lease_id, 1);
    assert_eq!(lease_a.start_time, t);
    assert_eq!(lease_a.end_time, t + 3600);
    assert!(lease_a.is_active);
    assert!(!lease_a.is_returned);
    assert_eq!(ledger.get_status(), status(1, 1, 0, 0));

    assert_eq!(ledger.complete_lease(1), Ok(()));
    assert_eq!(ledger.get_status(), status(1, 0, 1, 0));
    let lease_a = ledger.get_lease(1).unwrap();
    assert!(!lease_a.is_active);
    assert!(lease_a.is_returned);

    let b = ledger.create_lease(
        t + 10,
        "ebook".to_string(),
        "digital".to_string(),
        "carol".to_string(),
        "dave".to_string(),
        60,
        7,
    );
    assert_eq!(b, 2);
    assert_eq!(ledger.get_status(), status(2, 1, 1, 0));

    let lease_b = ledger.get_lease(2).unwrap();
    assert_eq!(lease_b.lease_id, 2);
    assert_eq!(lease_b.asset_name, "ebook");
    assert_eq!(lease_b.asset_type, "digital");
    assert_eq!(lease_b.owner, "carol");
    assert_eq!(lease_b.lessee, "dave");
    assert_eq!(lease_b.start_time, t + 10);
    assert_eq!(lease_b.end_time, t + 70);
    assert!(lease_b.is_active);
    assert!(!lease_b.is_returned);
    assert_eq!(lease_b.amount_paid, 7);

    assert_eq!(ledger.complete_lease(1), Err(LeaseError::InvalidTransition));
    assert_eq!(ledger.get_status(), status(2, 1, 1, 0));

    assert_eq!(ledger.get_lease(99).unwrap_err(), LeaseError::NotFound);
}

#[test]
fn ids_are_sequential_in_call_order() {
    let mut ledger = AssetLeaseContract::new();
    for expected in 1..=20u64 {
        let id = create(&mut ledger, 5, "asset", 1, 1);
        assert_eq!(id, expected);
        assert_eq!(ledger.get_lease(id).unwrap().lease_id, expected);
    }
    assert_eq!(ledger.get_status(), status(20, 20, 0, 0));
}

#[test]
fn counts_stay_balanced_after_each_operation() {
    let mut ledger = AssetLeaseContract::new();
    for i in 0..6u64 {
        create(&mut ledger, i, "asset", 10, 0);
        let s = ledger.get_status();
        assert_eq!(s.active_leases + s.completed_leases, s.total_leases);
    }
    for id in [2u64, 4, 6] {
        let before = ledger.get_status();
        assert_eq!(ledger.complete_lease(id), Ok(()));
        let after = ledger.get_status();
        assert_eq!(after.total_leases, before.total_leases);
        assert_eq!(after.active_leases, before.active_leases - 1);
        assert_eq!(after.completed_leases, before.completed_leases + 1);
        assert_eq!(after.active_leases + after.completed_leases, after.total_leases);
    }
    assert_eq!(ledger.get_status(), status(6, 3, 3, 0));
}

#[test]
fn second_completion_is_refused_and_changes_nothing() {
    let mut ledger = AssetLeaseContract::new();
    let id = create(&mut ledger, 100, "drill", 50, 20);
    assert_eq!(ledger.complete_lease(id), Ok(()));
    let status_after_first = ledger.get_status();
    assert_eq!(ledger.complete_lease(id), Err(LeaseError::InvalidTransition));
    assert_eq!(ledger.get_status(), status_after_first);
    let lease = ledger.get_lease(id).unwrap();
    assert!(!lease.is_active);
    assert!(lease.is_returned);
    assert_eq!(lease.start_time, 100);
    assert_eq!(lease.end_time, 150);
}

#[test]
fn unknown_ids_are_not_found() {
    let mut ledger = AssetLeaseContract::new();
    assert_eq!(ledger.get_lease(1).unwrap_err(), LeaseError::NotFound);
    assert_eq!(ledger.complete_lease(1), Err(LeaseError::NotFound));
    create(&mut ledger, 0, "asset", 0, 0);
    assert_eq!(ledger.get_lease(0).unwrap_err(), LeaseError::NotFound);
    assert_eq!(ledger.complete_lease(0), Err(LeaseError::NotFound));
    assert_eq!(ledger.get_lease(2).unwrap_err(), LeaseError::NotFound);
    assert_eq!(ledger.complete_lease(2), Err(LeaseError::NotFound));
    assert_eq!(ledger.get_lease(u64::MAX).unwrap_err(), LeaseError::NotFound);
    assert_eq!(ledger.get_status(), status(1, 1, 0, 0));
}

#[test]
fn unchecked_inputs_are_accepted() {
    let mut ledger = AssetLeaseContract::new();
    let id = ledger.create_lease(
        42,
        String::new(),
        "vehicle".to_string(),
        String::new(),
        String::new(),
        0,
        -500,
    );
    let lease = ledger.get_lease(id).unwrap();
    assert_eq!(lease.asset_type, "vehicle");
    assert_eq!(lease.start_time, 42);
    assert_eq!(lease.end_time, 42);
    assert_eq!(lease.amount_paid, -500);
}

#[test]
fn window_end_saturates_at_the_last_timestamp() {
    let mut ledger = AssetLeaseContract::new();
    let id = create(&mut ledger, u64::MAX - 10, "asset", 3600, 1);
    let lease = ledger.get_lease(id).unwrap();
    assert_eq!(lease.start_time, u64::MAX - 10);
    assert_eq!(lease.end_time, u64::MAX);
    let id = create(&mut ledger, u64::MAX - 10, "asset", 10, 1);
    assert_eq!(ledger.get_lease(id).unwrap().end_time, u64::MAX);
}

#[test]
fn open_builds_an_active_record() {
    let lease = Lease::open(
        9,
        1000,
        "crane".to_string(),
        "physical".to_string(),
        "o".to_string(),
        "l".to_string(),
        25,
        i128::MIN,
    );
    assert_eq!(lease.lease_id, 9);
    assert_eq!(lease.start_time, 1000);
    assert_eq!(lease.end_time, 1025);
    assert!(lease.is_active);
    assert!(!lease.is_returned);
    assert_eq!(lease.amount_paid, i128::MIN);
}

#[test]
fn close_completes_once() {
    let mut lease = Lease::open(
        3,
        0,
        "a".to_string(),
        "digital".to_string(),
        "o".to_string(),
        "l".to_string(),
        1,
        0,
    );
    assert_eq!(lease.close(), Ok(()));
    assert!(!lease.is_active);
    assert!(lease.is_returned);
    assert_eq!(lease.close(), Err(LeaseError::InvalidTransition));
    assert!(!lease.is_active);
    assert!(lease.is_returned);
}

#[test]
fn duplicate_keeps_every_field() {
    let lease = Lease::open(
        4,
        7,
        "n".to_string(),
        "t".to_string(),
        "o".to_string(),
        "l".to_string(),
        3,
        -1,
    );
    let copy = lease.duplicate();
    assert_eq!(copy.lease_id, 4);
    assert_eq!(copy.asset_name, "n");
    assert_eq!(copy.asset_type, "t");
    assert_eq!(copy.owner, "o");
    assert_eq!(copy.lessee, "l");
    assert_eq!(copy.start_time, 7);
    assert_eq!(copy.end_time, 10);
    assert_eq!(copy.amount_paid, -1);
}

#[test]
fn status_steps() {
    let s = LeaseStatus::empty();
    assert_eq!(s, status(0, 0, 0, 0));
    let s = s.record_creation();
    assert_eq!(s, status(1, 1, 0, 0));
    let s = s.record_creation();
    assert_eq!(s, status(2, 2, 0, 0));
    let s = s.record_completion();
    assert_eq!(s, status(2, 1, 1, 0));
}

#[test]
fn lease_book_key_carries_its_id() {
    assert_eq!(LeaseBook::LeaseById(17).id(), 17);
    assert_ne!(LeaseBook::LeaseById(1), LeaseBook::LeaseById(2));
}
