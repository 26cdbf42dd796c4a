//! Behavioural tests of the scan engine: layer priority, toggle latching,
//! chord atomicity, report saturation, and a full end-to-end tick scenario.

use keymatrix::scan::{LayerId, Matrix, ReportFrame};
use keymatrix::tracker::ScanCode;

const Q: u8 = 20;

fn tick(
    m: &mut Matrix,
    pressed: &[ScanCode],
) -> (ReportFrame, [u8; 6], keymatrix::scan::MatrixState) {
    m.scan(&pressed.to_vec())
}

#[test]
fn layer_priority_cascade_over_all_flag_combinations() {
    for bits in 0..16u8 {
        let mut m = Matrix::new();
        m.state.left_symbol_key = bits & 1 != 0;
        m.state.right_symbol_key = bits & 2 != 0;
        m.state.nav_key = bits & 4 != 0;
        m.state.function_key = bits & 8 != 0;
        let got = m.choose_layer_for_state();
        let want = if m.state.function_key {
            LayerId::Function
        } else if m.state.nav_key || (m.state.left_symbol_key && m.state.right_symbol_key) {
            LayerId::Navigation
        } else if m.state.left_symbol_key || m.state.right_symbol_key {
            LayerId::Symbols
        } else {
            LayerId::Normal
        };
        assert_eq!(got, want, "flag combination {bits}");
    }
    // Function wins even with every other flag set.
    let mut m = Matrix::new();
    m.state.function_key = true;
    m.state.nav_key = true;
    m.state.left_symbol_key = true;
    m.state.right_symbol_key = true;
    m.state.stenotype = true;
    m.state.emulating_dvorak = true;
    assert_eq!(m.choose_layer_for_state(), LayerId::Function);
    // One symbol selector under the alternate layout picks its symbol variant.
    let mut m = Matrix::new();
    m.state.left_symbol_key = true;
    m.state.emulating_dvorak = true;
    assert_eq!(m.choose_layer_for_state(), LayerId::DvorakEmuSymbols);
    // The sticky modes only matter with no selector held.
    let mut m = Matrix::new();
    m.state.stenotype = true;
    assert_eq!(m.choose_layer_for_state(), LayerId::Steno);
    let mut m = Matrix::new();
    m.state.emulating_dvorak = true;
    assert_eq!(m.choose_layer_for_state(), LayerId::DvorakEmu);
    let mut m = Matrix::new();
    m.state.stenotype = true;
    m.state.emulating_dvorak = true;
    assert_eq!(m.choose_layer_for_state(), LayerId::Steno);
}

#[test]
fn end_to_end_single_key() {
    let mut m = Matrix::new();
    // Position (0,4) carries Q on the normal layer.
    let (report, packet, state) = tick(&mut m, &[(0, 4)]);
    assert_eq!(report.keycodes[0], Q);
    assert_eq!(report.keycodes[1..], [0, 0, 0, 0, 0]);
    assert_eq!(report.modifier, 0);
    assert_eq!(packet, [0u8; 6]);
    assert!(!state.awaiting_clear);
    // Released: the key debounces away over five further ticks.
    for _ in 0..4 {
        let (report, packet, _) = tick(&mut m, &[]);
        assert_eq!(report.keycodes[0], Q);
        assert_eq!(packet, [0u8; 6]);
    }
    let (report, packet, _) = tick(&mut m, &[]);
    assert_eq!(report, ReportFrame::empty());
    assert_eq!(packet, [0u8; 6]);
    assert!(m.held_keys.is_all_released());
}

#[test]
fn modifier_keys_fill_a_slot_and_set_their_bit() {
    let mut m = Matrix::new();
    // (3,5) is left-shift on the normal layer, (0,4) is Q.
    let (report, _, _) = tick(&mut m, &[(3, 5), (0, 4)]);
    assert_eq!(report.modifier, 0x02);
    assert_eq!(report.keycodes, [0, Q, 0, 0, 0, 0]);
}

#[test]
fn pedal_reports_its_fixed_key_on_any_layer() {
    let mut m = Matrix::new();
    m.state.function_key = true;
    let (report, _, _) = tick(&mut m, &[(8, 0)]);
    assert_eq!(report.keycodes[0], 198);
    assert_eq!(report.modifier, 0);
}

#[test]
fn report_saturation_seven_keys_fill_exactly_six_slots() {
    let mut m = Matrix::new();
    // Seven ordinary keys on the normal layer, in observation order:
    // T R E W Q Tab F.
    let presses: [ScanCode; 7] = [(0, 0), (0, 1), (0, 2), (0, 3), (0, 4), (0, 5), (1, 1)];
    let (report, _, _) = tick(&mut m, &presses);
    assert_eq!(report.keycodes, [23, 21, 8, 26, Q, 43]);
    // Every slot is taken; the seventh key (F, code 9) was dropped from the
    // report, deterministically the last in resolution order.
    assert!(!report.keycodes.contains(&9));
    // The seventh key is still tracked: once one of the first six expires it
    // becomes reportable.
    for _ in 0..5 {
        tick(&mut m, &[(1, 1)]);
    }
    let (report, _, _) = tick(&mut m, &[(1, 1)]);
    assert_eq!(report.keycodes, [9, 0, 0, 0, 0, 0]);
}

#[test]
fn toggle_held_ten_ticks_flips_exactly_once_and_is_latched() {
    let mut m = Matrix::new();
    assert!(!m.state.stenotype);
    // (5,4) is the chorded-mode toggle on the function layer.
    m.state.function_key = true;
    for i in 0..10 {
        let (report, packet, state) = tick(&mut m, &[(5, 4)]);
        assert!(state.stenotype, "tick {i}");
        assert!(state.awaiting_clear, "tick {i}");
        // While the latch is set the report carries nothing.
        assert_eq!(report, ReportFrame::empty());
        assert_eq!(packet, [0u8; 6]);
    }
    // Release: after five decrement ticks everything is released and the
    // latch clears, with the single flip preserved.
    let mut cleared = false;
    for _ in 0..5 {
        let (_, _, state) = tick(&mut m, &[]);
        assert!(state.stenotype);
        cleared = !state.awaiting_clear;
    }
    assert!(cleared);
    assert!(m.held_keys.is_all_released());
}

#[test]
fn chord_st1_then_hl_emits_one_packet_then_nothing() {
    let mut m = Matrix::new();
    m.state.stenotype = true;
    // On the chord layer, (0,0) is ST1 at (2,8) and (0,1) is HL at (1,1).
    let (report, packet, state) = tick(&mut m, &[(0, 0)]);
    assert_eq!(report, ReportFrame::empty());
    assert_eq!(packet, [0u8; 6]);
    assert!(state.awaiting_clear);
    let (_, packet, _) = tick(&mut m, &[(0, 0), (0, 1)]);
    assert_eq!(packet, [0u8; 6]);
    // Release ST1 first, keep HL one more tick, then release everything.
    let (_, packet, _) = tick(&mut m, &[(0, 1)]);
    assert_eq!(packet, [0u8; 6]);
    let mut emitted = Vec::new();
    for _ in 0..6 {
        let (_, packet, _) = tick(&mut m, &[]);
        if packet != [0u8; 6] {
            emitted.push(packet);
        }
    }
    // Exactly one non-zero packet, with both chord bits set and nothing else.
    assert_eq!(emitted.len(), 1);
    let mut want = [0u8; 6];
    want[2] = 8;
    want[1] = 1;
    assert_eq!(emitted[0], want);
    assert!(!m.state.awaiting_clear);
    // The buffer was zeroed on emission: a further all-released tick emits
    // nothing.
    let (_, packet, _) = tick(&mut m, &[]);
    assert_eq!(packet, [0u8; 6]);
}

#[test]
fn chord_hl_then_st1_emits_the_same_packet() {
    let mut m = Matrix::new();
    m.state.stenotype = true;
    tick(&mut m, &[(0, 1)]);
    tick(&mut m, &[(0, 1), (0, 0)]);
    let mut emitted = Vec::new();
    for _ in 0..6 {
        let (_, packet, _) = tick(&mut m, &[]);
        if packet != [0u8; 6] {
            emitted.push(packet);
        }
    }
    assert_eq!(emitted.len(), 1);
    let mut want = [0u8; 6];
    want[1] = 1;
    want[2] = 8;
    assert_eq!(emitted[0], want);
}

#[test]
fn selector_reverts_the_moment_it_is_released_from_observation() {
    let mut m = Matrix::new();
    // (6,5) is the navigation selector on the normal layer.
    let (_, _, state) = tick(&mut m, &[(6, 5)]);
    assert!(state.nav_key);
    assert_eq!(m.choose_layer_for_state(), LayerId::Navigation);
    // The selector key keeps debouncing, so the flag stays while it is held;
    // here it stays observed once more, then the hold expires.
    for _ in 0..5 {
        tick(&mut m, &[]);
    }
    let (_, _, state) = tick(&mut m, &[]);
    assert!(!state.nav_key);
    assert_eq!(m.choose_layer_for_state(), LayerId::Normal);
}

#[test]
fn actions_are_captured_at_press_time_from_the_then_active_layer() {
    let mut m = Matrix::new();
    // Press Q's position under the normal layer, then switch the sticky mode:
    // the held key keeps reporting what it resolved to at press time.
    tick(&mut m, &[(0, 4)]);
    m.state.stenotype = true;
    let (report, _, _) = tick(&mut m, &[(0, 4)]);
    assert_eq!(report.keycodes[0], Q);
}
