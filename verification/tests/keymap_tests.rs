//! Tests of the key-construction helpers, the chord encoder table and the
//! transport-boundary decisions.

use keymatrix::keymap::{hid_code, k, modifier_key_bit_repr, rev, shift, KeyCode, Thing};
use keymatrix::scan::ReportFrame;
use keymatrix::steno;
use keymatrix::steno::KeyCode as SK;
use keymatrix::transport::{frame_chord_packet, packet_is_nonzero, report_to_send};

#[test]
fn ordinary_keys_carry_their_hid_code() {
    assert_eq!(k(KeyCode::Q), Thing::RealKey((20, 0)));
    assert_eq!(k(KeyCode::A), Thing::RealKey((4, 0)));
    assert_eq!(k(KeyCode::Kc1), Thing::RealKey((30, 0)));
    assert_eq!(k(KeyCode::Kc0), Thing::RealKey((39, 0)));
    assert_eq!(k(KeyCode::Space), Thing::RealKey((44, 0)));
    assert_eq!(k(KeyCode::F15), Thing::RealKey((106, 0)));
}

#[test]
fn modifier_keys_carry_only_their_bit() {
    assert_eq!(k(KeyCode::LCtrl), Thing::RealKey((0, 0x01)));
    assert_eq!(k(KeyCode::LShift), Thing::RealKey((0, 0x02)));
    assert_eq!(k(KeyCode::LAlt), Thing::RealKey((0, 0x04)));
    assert_eq!(k(KeyCode::LGui), Thing::RealKey((0, 0x08)));
    assert_eq!(k(KeyCode::RCtrl), Thing::RealKey((0, 0x10)));
    assert_eq!(k(KeyCode::RShift), Thing::RealKey((0, 0x20)));
    assert_eq!(k(KeyCode::RAlt), Thing::RealKey((0, 0x40)));
    assert_eq!(k(KeyCode::RGui), Thing::RealKey((0, 0x80)));
    assert_eq!(modifier_key_bit_repr(KeyCode::Q), 0);
    assert_eq!(modifier_key_bit_repr(KeyCode::RGui), 0x80);
}

#[test]
fn shift_ors_the_left_shift_bit_in() {
    assert_eq!(shift(KeyCode::Kc8), Thing::RealKey((37, 0x02)));
    assert_eq!(shift(KeyCode::Grave), Thing::RealKey((53, 0x02)));
    // Shifting a modifier key keeps its own bit too.
    assert_eq!(shift(KeyCode::LCtrl), Thing::RealKey((0, 0x03)));
}

#[test]
fn rev_mirrors_a_row() {
    assert_eq!(rev([1u8, 2, 3, 4, 5, 6]), [6u8, 5, 4, 3, 2, 1]);
}

#[test]
fn hid_codes_are_never_zero() {
    let all = [
        KeyCode::A,
        KeyCode::Z,
        KeyCode::Kc0,
        KeyCode::Enter,
        KeyCode::Tab,
        KeyCode::F1,
        KeyCode::F13,
        KeyCode::KbMute,
        KeyCode::KbVolumeDown,
        KeyCode::Up,
        KeyCode::RGui,
    ];
    for code in all {
        assert_ne!(hid_code(code), 0);
    }
}

#[test]
fn chord_table_is_exact() {
    let table = [
        (SK::S1, (1, 64)),
        (SK::TL, (1, 16)),
        (SK::PL, (1, 4)),
        (SK::HL, (1, 1)),
        (SK::S2, (1, 32)),
        (SK::KL, (1, 8)),
        (SK::WL, (1, 2)),
        (SK::RL, (2, 64)),
        (SK::ST1, (2, 8)),
        (SK::ST2, (2, 4)),
        (SK::ST3, (3, 32)),
        (SK::ST4, (3, 16)),
        (SK::A, (2, 32)),
        (SK::O, (2, 16)),
        (SK::E, (3, 8)),
        (SK::U, (3, 4)),
        (SK::FR, (3, 2)),
        (SK::PR, (4, 64)),
        (SK::LR, (4, 16)),
        (SK::TR, (4, 4)),
        (SK::DR, (4, 1)),
        (SK::RR, (3, 1)),
        (SK::BR, (4, 32)),
        (SK::GR, (4, 8)),
        (SK::SR, (4, 2)),
        (SK::ZR, (5, 1)),
        (SK::Number, (0, 32)),
    ];
    for (key, want) in table {
        let got = key.to_packet_code();
        assert_eq!(got, want);
        // Inside the frame, a single set bit, clear of the lead-marker bit.
        assert!(got.0 < 6);
        assert_ne!(got.1, 0);
        assert_eq!(got.1 & (got.1.wrapping_sub(1)), 0);
        assert!(got.0 != 0 || got.1 & 0x80 == 0);
    }
}

#[test]
fn chord_framing_sends_lead_then_release_frame() {
    let packet: steno::Packet = [0, 1, 8, 0, 0, 0];
    assert!(packet_is_nonzero(&packet));
    let (lead, release) = frame_chord_packet(&packet).unwrap();
    assert_eq!(lead, [0x80, 1, 8, 0, 0, 0]);
    assert_eq!(release, [0x80, 0, 0, 0, 0, 0]);
    // The lead marker never clobbers chord bits in the first byte.
    let packet: steno::Packet = [32, 0, 0, 0, 0, 0];
    let (lead, _) = frame_chord_packet(&packet).unwrap();
    assert_eq!(lead, [0x80 | 32, 0, 0, 0, 0, 0]);
}

#[test]
fn empty_chord_sends_nothing() {
    let packet: steno::Packet = [0u8; 6];
    assert!(!packet_is_nonzero(&packet));
    assert!(frame_chord_packet(&packet).is_none());
}

#[test]
fn reports_are_sent_only_when_they_differ() {
    let a = ReportFrame { modifier: 0, keycodes: [20, 0, 0, 0, 0, 0] };
    let same = ReportFrame { modifier: 0, keycodes: [20, 0, 0, 0, 0, 0] };
    let other = ReportFrame { modifier: 2, keycodes: [20, 0, 0, 0, 0, 0] };
    assert!(report_to_send(&a, &same).is_none());
    assert_eq!(report_to_send(&a, &other), Some(other));
    assert_eq!(report_to_send(&other, &a), Some(a));
}
