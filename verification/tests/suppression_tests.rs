use twitchalerts::suppression::SuppressionWindow;

#[test]
fn fresh_window_suppresses_nothing() {
    let w = SuppressionWindow::new(30_000);
    assert!(!w.is_suppressed(&"alice".to_string(), 0));
    assert!(!w.is_suppressed(&"alice".to_string(), 123_456));
}

#[test]
fn mark_suppresses_until_ttl() {
    let mut w = SuppressionWindow::new(30_000);
    let alice = "alice".to_string();
    w.mark(&alice, 1_000);
    assert!(w.is_suppressed(&alice, 1_000));
    assert!(w.is_suppressed(&alice, 30_999));
    // At exactly the time-to-live the mark has expired.
    assert!(!w.is_suppressed(&alice, 31_000));
    assert!(!w.is_suppressed(&alice, 99_999));
}

#[test]
fn marks_are_per_identifier() {
    let mut w = SuppressionWindow::new(30_000);
    w.mark(&"alice".to_string(), 1_000);
    assert!(w.is_suppressed(&"alice".to_string(), 2_000));
    assert!(!w.is_suppressed(&"bob".to_string(), 2_000));
}

#[test]
fn mark_refreshes_an_existing_entry() {
    let mut w = SuppressionWindow::new(30_000);
    let alice = "alice".to_string();
    w.mark(&alice, 0);
    w.mark(&alice, 50_000);
    // The refreshed mark counts from the newer instant.
    assert!(w.is_suppressed(&alice, 60_000));
    assert!(!w.is_suppressed(&alice, 80_000));
}

#[test]
fn evict_expired_removes_only_old_marks() {
    let mut w = SuppressionWindow::new(30_000);
    let alice = "alice".to_string();
    let bob = "bob".to_string();
    w.mark(&alice, 0);
    w.mark(&bob, 25_000);
    w.evict_expired(40_000);
    // Alice's mark was 40 s old and is gone; Bob's was 15 s old and stays.
    assert!(!w.is_suppressed(&alice, 40_000));
    assert!(w.is_suppressed(&bob, 40_000));
    // An evicted identifier can be marked anew.
    w.mark(&alice, 41_000);
    assert!(w.is_suppressed(&alice, 42_000));
}
