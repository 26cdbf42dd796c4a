//! Behavioural tests of the debounced key-hold tracker: debounce lifetimes,
//! the front-packed order, refresh-in-place, and the capacity policy.

use keymatrix::keymap::Thing;
use keymatrix::tracker::HeldKeys;

fn rk(code: u8) -> Thing {
    Thing::RealKey((code, 0))
}

#[test]
fn fresh_tracker_is_all_released() {
    let held = HeldKeys::default();
    assert!(held.is_all_released());
    assert_eq!(held.iter_pressed_things(), vec![]);
}

#[test]
fn pressed_once_lasts_exactly_five_decrements() {
    let mut held = HeldKeys::default();
    held.record_pressed((0, 1), rk(20));
    assert!(!held.is_all_released());
    for _ in 0..4 {
        held.decrement_holds();
        assert_eq!(held.iter_pressed_things(), vec![rk(20)]);
        assert!(!held.is_all_released());
    }
    held.decrement_holds();
    assert!(held.is_all_released());
    assert_eq!(held.iter_pressed_things(), vec![]);
}

#[test]
fn re_observed_every_tick_never_disappears() {
    let mut held = HeldKeys::default();
    held.record_pressed((2, 3), rk(7));
    for _ in 0..20 {
        held.decrement_holds();
        held.record_pressed((2, 3), rk(7));
        assert!(!held.is_all_released());
        assert_eq!(held.iter_pressed_things(), vec![rk(7)]);
    }
}

#[test]
fn refresh_keeps_position_and_original_action() {
    let mut held = HeldKeys::default();
    held.record_pressed((0, 0), rk(1));
    held.record_pressed((0, 1), rk(2));
    // A re-observation refreshes the counter but must not move the key nor
    // replace its captured action.
    held.record_pressed((0, 0), rk(99));
    assert_eq!(held.iter_pressed_things(), vec![rk(1), rk(2)]);
}

#[test]
fn expired_key_frees_its_slot_and_order_is_kept() {
    let mut held = HeldKeys::default();
    held.record_pressed((0, 0), rk(1));
    for _ in 0..4 {
        held.decrement_holds();
    }
    // (0,0) is on its last tick; a new key arrives behind it.
    held.record_pressed((1, 1), rk(2));
    assert_eq!(held.iter_pressed_things(), vec![rk(1), rk(2)]);
    held.decrement_holds();
    // (0,0) expired; the survivor closed ranks at the front.
    assert_eq!(held.iter_pressed_things(), vec![rk(2)]);
    assert!(!held.is_all_released());
}

#[test]
fn seventeenth_simultaneous_key_is_dropped() {
    let mut held = HeldKeys::default();
    for i in 0..16u8 {
        held.record_pressed((i / 6, i % 6), rk(i + 1));
    }
    assert_eq!(held.iter_pressed_things().len(), 16);
    // All 16 slots are occupied: this press is silently dropped.
    held.record_pressed((7, 5), rk(100));
    let things = held.iter_pressed_things();
    assert_eq!(things.len(), 16);
    assert!(!things.contains(&rk(100)));
}

#[test]
fn interleaved_records_and_decrements_keep_front_packed_order() {
    let mut held = HeldKeys::default();
    held.record_pressed((0, 0), rk(1));
    held.decrement_holds();
    held.record_pressed((0, 1), rk(2));
    held.decrement_holds();
    held.record_pressed((0, 2), rk(3));
    // Press order must be preserved at the front.
    assert_eq!(held.iter_pressed_things(), vec![rk(1), rk(2), rk(3)]);
    // Let the first two expire; the rest close ranks in order.
    held.decrement_holds();
    held.decrement_holds();
    held.decrement_holds();
    assert_eq!(held.iter_pressed_things(), vec![rk(2), rk(3)]);
    held.decrement_holds();
    assert_eq!(held.iter_pressed_things(), vec![rk(3)]);
}
