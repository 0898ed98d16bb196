use superfan::fan_actuation::lease::ActuationLease;

#[test]
fn expires_manual_control_without_heartbeat() {
    let started = 0;
    let mut lease = ActuationLease::new(5_000, started);
    lease.set_manual(0, started);

    assert!(lease.should_restore(started + 5_000));
}

#[test]
fn heartbeat_keeps_manual_control_active() {
    let started = 0;
    let mut lease = ActuationLease::new(5_000, started);
    lease.set_manual(0, started);
    lease.heartbeat(started + 4_000);

    assert!(!lease.should_restore(started + 8_000));
}

#[test]
fn system_auto_clears_the_manual_lease() {
    let started = 0;
    let mut lease = ActuationLease::new(5_000, started);
    lease.set_manual(0, started);
    lease.set_system_auto(0, started + 1_000);

    assert!(!lease.should_restore(started + 10_000));
}

#[test]
fn lease_without_manual_fans_never_expires() {
    let lease = ActuationLease::new(5_000, 0);
    assert!(!lease.should_restore(1_000_000));
}

#[test]
fn clock_going_backwards_counts_as_no_elapsed_time() {
    let mut lease = ActuationLease::new(5_000, 10_000);
    lease.set_manual(3, 10_000);
    assert!(!lease.should_restore(2_000));
    assert!(lease.should_restore(14_999 + 1));
}

#[test]
fn restoring_all_fans_clears_the_lease() {
    let mut lease = ActuationLease::new(5_000, 0);
    lease.set_manual(0, 0);
    lease.set_manual(1, 0);
    lease.restored_all(100);
    assert!(!lease.should_restore(60_000));
}

#[test]
fn restored_lease_stays_clear_until_a_fan_is_set_manual_again() {
    let mut lease = ActuationLease::new(5_000, 0);
    lease.set_manual(0, 0);
    lease.set_manual(1, 0);
    lease.restored_all(1_000);
    lease.heartbeat(2_000);
    lease.set_system_auto(1, 3_000);
    lease.restored_all(4_000);

    assert!(!lease.should_restore(4_000));
    assert!(!lease.should_restore(1_000_000));

    lease.set_manual(2, 10_000);
    assert!(lease.should_restore(15_000));
}

#[test]
fn expiry_follows_the_whole_history_of_calls() {
    let mut lease = ActuationLease::new(5_000, 0);
    lease.set_manual(0, 0);
    lease.set_manual(1, 1_000);
    lease.set_system_auto(0, 2_000);
    lease.heartbeat(3_000);

    assert!(!lease.should_restore(7_999));
    assert!(lease.should_restore(8_000));

    lease.set_system_auto(1, 9_000);
    assert!(!lease.should_restore(20_000));
}
