use massa_sc_tester::schedule::{slot_order, ScheduleError};
use massa_sc_tester::trace::Slot;

fn s(period: u64, thread: u8) -> Slot {
    Slot { period, thread }
}

#[test]
fn slots_run_period_then_thread() {
    let slots = vec![s(2, 0), s(1, 5), s(1, 2), s(0, 9)];
    assert_eq!(slot_order(&slots), Ok(vec![3, 2, 1, 0]));
}

#[test]
fn empty_scenario_has_empty_order() {
    assert_eq!(slot_order(&Vec::new()), Ok(Vec::new()));
}

#[test]
fn duplicate_slot_is_rejected() {
    let slots = vec![s(1, 1), s(0, 3), s(1, 1)];
    assert_eq!(slot_order(&slots), Err(ScheduleError::DuplicateSlot(s(1, 1))));
}

#[test]
fn largest_coordinates_sort_last() {
    let slots = vec![s(u64::MAX, u8::MAX), s(u64::MAX, 0), s(0, u8::MAX)];
    assert_eq!(slot_order(&slots), Ok(vec![2, 1, 0]));
}
