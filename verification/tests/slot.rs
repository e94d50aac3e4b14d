use continuation::{DropState, ReadStatus, Slot};

#[test]
fn an_empty_slot_takes_a_value_and_gives_it_once() {
    let mut slot = Slot::Empty;
    assert!(slot.send(3).is_none());
    assert!(matches!(slot, Slot::Data(3)));
    assert!(matches!(slot.interpret_result(), ReadStatus::Data(3)));
    assert!(matches!(slot, Slot::Gone));
    assert!(matches!(slot.interpret_result(), ReadStatus::Spent));
    assert!(matches!(slot, Slot::Gone));
}

#[test]
fn a_slot_that_is_not_empty_refuses_a_value() {
    let mut full = Slot::Data(1);
    assert_eq!(full.send(2), Some(2));
    assert!(matches!(full, Slot::Data(1)));
    let mut gone = Slot::Gone;
    assert_eq!(gone.send(2), Some(2));
    assert!(matches!(gone, Slot::Gone));
    let mut hung_up = Slot::FutureHangup;
    assert_eq!(hung_up.send(2), Some(2));
    assert!(matches!(hung_up, Slot::FutureHangup));
}

#[test]
fn an_empty_slot_makes_the_reader_wait() {
    let mut slot: Slot<i32> = Slot::Empty;
    assert!(matches!(slot.interpret_result(), ReadStatus::Waiting));
    assert!(matches!(slot, Slot::Empty));
}

#[test]
fn a_hung_up_slot_has_nothing_to_read() {
    let mut slot: Slot<i32> = Slot::FutureHangup;
    assert!(matches!(slot.interpret_result(), ReadStatus::Spent));
    assert!(slot.is_hung_up());
}

#[test]
fn a_hangup_tells_what_it_found() {
    let mut empty: Slot<i32> = Slot::Empty;
    assert!(!empty.is_hung_up());
    assert_eq!(empty.hang_up(), (DropState::Cancelled, None));
    assert!(empty.is_hung_up());
    let mut full = Slot::Data(9);
    assert_eq!(full.hang_up(), (DropState::NotCancelled, Some(9)));
    assert!(full.is_hung_up());
    let mut gone: Slot<i32> = Slot::Gone;
    assert_eq!(gone.hang_up(), (DropState::NotCancelled, None));
    assert!(gone.is_hung_up());
    assert_eq!(gone.hang_up(), (DropState::NotCancelled, None));
}
