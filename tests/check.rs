use ti::check::{decide, observe, observed_count, CheckAction};
use ti::notice::NotificationState;

/// One whole check, with a notifier that delivers or not; returns whether an
/// alert was delivered.
fn run_check(s: &mut NotificationState, id: &str, count: usize, delivers: bool) -> bool {
    let action = s.begin_check(id, count);
    let sent = action == CheckAction::SendAlert;
    s.finish_check(id, action, delivers);
    sent && delivers
}

#[test]
fn decide_covers_all_cases() {
    assert_eq!(decide(false, 3), CheckAction::SendAlert);
    assert_eq!(decide(true, 3), CheckAction::NoChange);
    assert_eq!(decide(true, 0), CheckAction::Rearm);
    assert_eq!(decide(false, 0), CheckAction::NoChange);
}

#[test]
fn failed_fetch_counts_as_zero() {
    assert_eq!(observed_count(Err("timeout".to_string())), 0);
    assert_eq!(observed_count(Ok(7)), 7);
}

#[test]
fn zero_then_positive_alerts_once() {
    let mut s = NotificationState::new();
    assert!(!run_check(&mut s, "P", 0, true));
    assert!(run_check(&mut s, "P", 4, true));
    assert!(s.has_alerted("P"));
}

#[test]
fn positive_twice_alerts_once() {
    let mut s = NotificationState::new();
    let a = run_check(&mut s, "P", 2, true);
    let b = run_check(&mut s, "P", 9, true);
    assert!(a);
    assert!(!b);
    assert_eq!(s.begin_check("P", 1), CheckAction::NoChange);
}

#[test]
fn stock_out_rearms_alert() {
    let mut s = NotificationState::new();
    assert!(run_check(&mut s, "P", 2, true));
    assert_eq!(s.begin_check("P", 0), CheckAction::Rearm);
    assert!(!s.has_alerted("P"));
    assert!(run_check(&mut s, "P", 1, true));
    assert!(s.has_alerted("P"));
}

#[test]
fn failed_send_is_retried() {
    let mut s = NotificationState::new();
    assert!(!run_check(&mut s, "P", 3, false));
    assert!(!s.has_alerted("P"));
    assert_eq!(s.begin_check("P", 3), CheckAction::SendAlert);
}

#[test]
fn order_of_distinct_checks_does_not_matter() {
    let checks = [("A", 0usize, true), ("B", 5, true), ("C", 2, false), ("D", 1, true)];
    let mut first = NotificationState::new();
    first.mark_alerted("A");
    first.mark_alerted("D");
    let mut second = NotificationState::new();
    second.mark_alerted("D");
    second.mark_alerted("A");
    for &(id, n, d) in checks.iter() {
        run_check(&mut first, id, n, d);
    }
    for &(id, n, d) in checks.iter().rev() {
        run_check(&mut second, id, n, d);
    }
    for id in ["A", "B", "C", "D"] {
        assert_eq!(first.has_alerted(id), second.has_alerted(id));
    }
    assert!(!first.has_alerted("A"));
    assert!(first.has_alerted("B"));
    assert!(!first.has_alerted("C"));
    assert!(first.has_alerted("D"));
}

#[test]
fn observe_reports_failure_then_zero_stock() {
    let o = observe("ABC", Err("404".to_string()));
    assert_eq!(o.count, 0);
    assert_eq!(
        o.events,
        vec![
            "fetch failed for ABC, check the product id".to_string(),
            "product ABC, stock 0".to_string()
        ]
    );
}

#[test]
fn observe_reports_fetched_stock() {
    let o = observe("XYZ789", Ok(5));
    assert_eq!(o.count, 5);
    assert_eq!(o.events, vec!["product XYZ789, stock 5".to_string()]);
}
