use reactor::completion::CompletionSlot;

#[test]
fn fresh_slot_is_not_ready() {
    let slot: CompletionSlot<u64> = CompletionSlot::new();
    assert!(!slot.is_ready());
    assert!(slot.value().is_none());
}

#[test]
fn resolve_makes_ready_with_value() {
    let mut slot: CompletionSlot<u64> = CompletionSlot::new();
    slot.resolve(17);
    assert!(slot.is_ready());
    assert_eq!(slot.value(), Some(&17));
}

#[test]
fn second_resolution_is_a_noop() {
    let mut slot: CompletionSlot<u64> = CompletionSlot::new();
    slot.resolve(3);
    slot.resolve(4);
    assert!(slot.is_ready());
    assert_eq!(slot.value(), Some(&3));
}

#[test]
fn many_resolutions_keep_the_first_value() {
    let mut slot: CompletionSlot<String> = CompletionSlot::new();
    slot.resolve(String::from("first"));
    slot.resolve(String::from("second"));
    slot.resolve(String::from("third"));
    assert!(slot.is_ready());
    assert_eq!(slot.value().map(|s| s.as_str()), Some("first"));
}
