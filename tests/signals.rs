use spotlight_dimmer::signals::EventSignals;

#[test]
fn message_counter_counts_and_resets() {
    let mut s = EventSignals::new();
    assert_eq!(s.get_message_count(), 0);
    s.record_message();
    s.record_message();
    assert_eq!(s.get_message_count(), 2);
    s.reset_message_count();
    assert_eq!(s.get_message_count(), 0);
}

#[test]
fn foreground_flag_is_read_once() {
    let mut s = EventSignals::new();
    assert!(!s.check_and_reset_foreground_changed());
    s.record_foreground_change();
    assert!(s.check_and_reset_foreground_changed());
    assert!(!s.check_and_reset_foreground_changed());
}
