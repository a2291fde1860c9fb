use jury::hub::{apply_membership, remove_failed, DebounceAction, Debouncer};

#[test]
fn first_tick_broadcasts_immediately() {
    let mut d = Debouncer::new();
    let a = d.on_change_tick(1_000_000);
    assert_eq!(a, DebounceAction::Broadcast);
    assert_eq!(d.last_update, 1_000_000);
    assert!(!d.debounced);
}

#[test]
fn burst_yields_one_leading_and_one_trailing_broadcast() {
    // Fifty change events within two seconds: the first broadcasts, the
    // second schedules the trailing broadcast, the rest are dropped.
    let mut d = Debouncer::new();
    let start: i64 = 10_000_000;
    let mut broadcasts = 0;
    let mut schedules = 0;
    let mut drops = 0;
    for k in 0..50i64 {
        let now = start + k * 40; // 50 events over 2000 ms
        match d.on_change_tick(now) {
            DebounceAction::Broadcast => broadcasts += 1,
            DebounceAction::Schedule { delay_ms } => {
                schedules += 1;
                // The trailing broadcast lands 11 s after the burst began.
                assert_eq!(delay_ms as i64, 11_000 - (now - start));
            },
            DebounceAction::Ignore => drops += 1,
        }
    }
    assert_eq!(broadcasts, 1);
    assert_eq!(schedules, 1);
    assert_eq!(drops, 48);
    // The scheduled task fires: the debounce flag clears, and the next
    // lone tick well past the window broadcasts again.
    d.on_debounce_fire();
    assert!(!d.debounced);
    assert_eq!(d.on_change_tick(start + 30_000), DebounceAction::Broadcast);
}

#[test]
fn tick_inside_window_schedules_trailing_delay() {
    let mut d = Debouncer::new();
    assert_eq!(d.on_change_tick(100_000), DebounceAction::Broadcast);
    let a = d.on_change_tick(103_000);
    assert_eq!(a, DebounceAction::Schedule { delay_ms: 8_000 });
    assert!(d.debounced);
    assert_eq!(d.last_update, 100_000);
}

#[test]
fn connect_appends_and_disconnect_removes_first() {
    let mut sinks: Vec<u64> = Vec::new();
    apply_membership(&mut sinks, true, 5);
    apply_membership(&mut sinks, true, 8);
    apply_membership(&mut sinks, true, 5);
    assert_eq!(sinks, vec![5, 8, 5]);
    apply_membership(&mut sinks, false, 5);
    assert_eq!(sinks, vec![8, 5]);
    apply_membership(&mut sinks, false, 99);
    assert_eq!(sinks, vec![8, 5]);
}

#[test]
fn remove_failed_drops_exactly_the_failed_sinks() {
    let mut sinks: Vec<u64> = vec![10, 11, 12, 13, 14];
    // Failures at positions 3 and 1, collected in decreasing order.
    let failed: Vec<usize> = vec![3, 1];
    remove_failed(&mut sinks, &failed);
    assert_eq!(sinks, vec![10, 12, 14]);
}

#[test]
fn remove_failed_with_nothing_failed_keeps_all() {
    let mut sinks: Vec<u64> = vec![1, 2];
    remove_failed(&mut sinks, &Vec::new());
    assert_eq!(sinks, vec![1, 2]);
}
