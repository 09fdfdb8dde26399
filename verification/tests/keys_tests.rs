use se_button::keys::{diff_key_events, KeyEvent};

#[test]
fn newly_held_keys_are_presses_and_dropped_keys_are_releases() {
    let last = vec![1, 2, 3];
    let now = vec![2, 3, 4];
    let events = diff_key_events(&last, &now);
    assert_eq!(events, vec![(4, KeyEvent::Press), (1, KeyEvent::Release)]);
}

#[test]
fn unchanged_snapshots_yield_no_events() {
    let held = vec![5, 6];
    assert_eq!(diff_key_events(&held, &held.clone()), vec![]);
    assert_eq!(diff_key_events(&vec![], &vec![]), vec![]);
}

#[test]
fn presses_come_in_snapshot_order_before_releases() {
    let last = vec![10, 20];
    let now = vec![30, 40];
    let events = diff_key_events(&last, &now);
    assert_eq!(
        events,
        vec![
            (30, KeyEvent::Press),
            (40, KeyEvent::Press),
            (10, KeyEvent::Release),
            (20, KeyEvent::Release),
        ]
    );
}

#[test]
fn first_poll_reports_all_held_keys_as_presses() {
    let events = diff_key_events(&vec![], &vec![7]);
    assert_eq!(events, vec![(7, KeyEvent::Press)]);
}
