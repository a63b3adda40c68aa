use ti::notice::NotificationState;

#[test]
fn new_state_is_empty() {
    let s = NotificationState::new();
    assert!(!s.has_alerted("ABC123"));
}

#[test]
fn mark_then_clear() {
    let mut s = NotificationState::new();
    s.mark_alerted("ABC123");
    assert!(s.has_alerted("ABC123"));
    assert!(!s.has_alerted("XYZ789"));
    s.mark_alerted("ABC123");
    assert!(s.has_alerted("ABC123"));
    s.clear("ABC123");
    assert!(!s.has_alerted("ABC123"));
}

#[test]
fn clear_of_absent_product_changes_nothing() {
    let mut s = NotificationState::new();
    s.mark_alerted("XYZ789");
    s.clear("ABC123");
    assert!(s.has_alerted("XYZ789"));
    assert!(!s.has_alerted("ABC123"));
}

#[test]
fn clear_keeps_other_products() {
    let mut s = NotificationState::new();
    s.mark_alerted("A");
    s.mark_alerted("B");
    s.mark_alerted("C");
    s.clear("B");
    assert!(s.has_alerted("A"));
    assert!(!s.has_alerted("B"));
    assert!(s.has_alerted("C"));
}
