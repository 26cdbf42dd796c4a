//! Key actions ([Thing]s) and the layers that map physical key positions to
//! them. A layer is an 8-row by 6-column grid of actions; several layers
//! exist and the scan engine selects among them each tick.

use crate::steno::{self, packet_code_wf, spec_packet_code, PacketCode};
use vstd::prelude::*;

verus! {

/// A USB HID keycode byte.
pub type HidKeyCode = u8;

/// A USB HID modifier bitmask byte.
pub type Modifiers = u8;

/// An ordinary key: HID keycode plus modifier bits to hold with it.
pub type Key = (HidKeyCode, Modifiers);

/// What a physical key press should do.
#[derive(Clone, Copy, Debug, PartialEq, Eq)]
pub enum Thing {
    /// Type an ordinary key into the HID report.
    RealKey(Key),
    /// Accumulate a chord flag into the chord packet.
    StenoKey(PacketCode),
    /// Hold the left symbol-layer selector for this tick.
    LeftSymbolKey,
    /// Hold the right symbol-layer selector for this tick.
    RightSymbolKey,
    /// Hold the navigation-layer selector for this tick.
    NavKey,
    /// Hold the function-layer selector for this tick.
    FunctionKey,
    /// Toggle the emulated alternate typing layout.
    DvorakToggle,
    /// Toggle chorded-input mode.
    StenoToggle,
    /// A key position that does nothing.
    Inactive,
}

/// An action is well formed when any chord flag it carries addresses the
/// packet correctly; every other action is unconditionally well formed.
pub open spec fn thing_wf(t: Thing) -> bool {
    match t {
        Thing::StenoKey(pc) => packet_code_wf(pc),
        _ => true,
    }
}

/// How many physical rows there are.
pub const ROWS: usize = 8;

/// How many physical columns there are.
pub const COLUMNS: usize = 6;

/// Array of the [Thing]s that one row of keys do.
pub type Row = [Thing; 6];

/// 2-D array of the [Thing]s that the whole set of keys do.
pub type Layer = [Row; 8];

/// Names of keys as they appear on a layer definition, translated to HID
/// keycodes by [hid_code] and to actions by [k] and [shift].
#[derive(Clone, Copy, Debug)]
pub enum KeyCode {
    A,
    B,
    C,
    D,
    E,
    F,
    G,
    H,
    I,
    J,
    K,
    L,
    M,
    N,
    O,
    P,
    Q,
    R,
    S,
    T,
    U,
    V,
    W,
    X,
    Y,
    Z,
    Kc1,
    Kc2,
    Kc3,
    Kc4,
    Kc5,
    Kc6,
    Kc7,
    Kc8,
    Kc9,
    Kc0,
    Enter,
    Escape,
    Backspace,
    Tab,
    Space,
    Minus,
    Equal,
    LeftBracket,
    RightBracket,
    Backslash,
    Semicolon,
    Quote,
    Grave,
    Comma,
    Dot,
    Slash,
    F1,
    F2,
    F3,
    F4,
    F5,
    F6,
    F7,
    F8,
    F9,
    F10,
    F11,
    F12,
    F13,
    F14,
    F15,
    Home,
    PageUp,
    Delete,
    End,
    PageDown,
    Right,
    Left,
    Down,
    Up,
    KbMute,
    KbVolumeUp,
    KbVolumeDown,
    LCtrl,
    LShift,
    LAlt,
    LGui,
    RCtrl,
    RShift,
    RAlt,
    RGui,
}

/// The flag bit a modifier key contributes to the HID modifier byte; 0 for
/// any key that is not a modifier.
pub open spec fn spec_modifier_bit(code: KeyCode) -> u8 {
    match code {
        KeyCode::LCtrl => 0x01,
        KeyCode::LShift => 0x02,
        KeyCode::LAlt => 0x04,
        KeyCode::LGui => 0x08,
        KeyCode::RCtrl => 0x10,
        KeyCode::RShift => 0x20,
        KeyCode::RAlt => 0x40,
        KeyCode::RGui => 0x80,
        _ => 0,
    }
}

/// Maps a modifier [KeyCode] to the equivalent flag bit for the USB HID
/// modifier byte, or returns 0 for any non-modifier [KeyCode].
pub fn modifier_key_bit_repr(code: KeyCode) -> (r: u8)
    ensures
        r == spec_modifier_bit(code),
{
    match code {
        KeyCode::LCtrl => 0x01,
        KeyCode::LShift => 0x02,
        KeyCode::LAlt => 0x04,
        KeyCode::LGui => 0x08,
        KeyCode::RCtrl => 0x10,
        KeyCode::RShift => 0x20,
        KeyCode::RAlt => 0x40,
        KeyCode::RGui => 0x80,
        _ => 0,
    }
}

/// The standard HID usage-page-7 code of each named key.
pub open spec fn spec_hid_code(code: KeyCode) -> u8 {
    match code {
        KeyCode::A => 4,
        KeyCode::B => 5,
        KeyCode::C => 6,
        KeyCode::D => 7,
        KeyCode::E => 8,
        KeyCode::F => 9,
        KeyCode::G => 10,
        KeyCode::H => 11,
        KeyCode::I => 12,
        KeyCode::J => 13,
        KeyCode::K => 14,
        KeyCode::L => 15,
        KeyCode::M => 16,
        KeyCode::N => 17,
        KeyCode::O => 18,
        KeyCode::P => 19,
        KeyCode::Q => 20,
        KeyCode::R => 21,
        KeyCode::S => 22,
        KeyCode::T => 23,
        KeyCode::U => 24,
        KeyCode::V => 25,
        KeyCode::W => 26,
        KeyCode::X => 27,
        KeyCode::Y => 28,
        KeyCode::Z => 29,
        KeyCode::Kc1 => 30,
        KeyCode::Kc2 => 31,
        KeyCode::Kc3 => 32,
        KeyCode::Kc4 => 33,
        KeyCode::Kc5 => 34,
        KeyCode::Kc6 => 35,
        KeyCode::Kc7 => 36,
        KeyCode::Kc8 => 37,
        KeyCode::Kc9 => 38,
        KeyCode::Kc0 => 39,
        KeyCode::Enter => 40,
        KeyCode::Escape => 41,
        KeyCode::Backspace => 42,
        KeyCode::Tab => 43,
        KeyCode::Space => 44,
        KeyCode::Minus => 45,
        KeyCode::Equal => 46,
        KeyCode::LeftBracket => 47,
        KeyCode::RightBracket => 48,
        KeyCode::Backslash => 49,
        KeyCode::Semicolon => 51,
        KeyCode::Quote => 52,
        KeyCode::Grave => 53,
        KeyCode::Comma => 54,
        KeyCode::Dot => 55,
        KeyCode::Slash => 56,
        KeyCode::F1 => 58,
        KeyCode::F2 => 59,
        KeyCode::F3 => 60,
        KeyCode::F4 => 61,
        KeyCode::F5 => 62,
        KeyCode::F6 => 63,
        KeyCode::F7 => 64,
        KeyCode::F8 => 65,
        KeyCode::F9 => 66,
        KeyCode::F10 => 67,
        KeyCode::F11 => 68,
        KeyCode::F12 => 69,
        KeyCode::Home => 74,
        KeyCode::PageUp => 75,
        KeyCode::Delete => 76,
        KeyCode::End => 77,
        KeyCode::PageDown => 78,
        KeyCode::Right => 79,
        KeyCode::Left => 80,
        KeyCode::Down => 81,
        KeyCode::Up => 82,
        KeyCode::F13 => 104,
        KeyCode::F14 => 105,
        KeyCode::F15 => 106,
        KeyCode::KbMute => 127,
        KeyCode::KbVolumeUp => 128,
        KeyCode::KbVolumeDown => 129,
        KeyCode::LCtrl => 224,
        KeyCode::LShift => 225,
        KeyCode::LAlt => 226,
        KeyCode::LGui => 227,
        KeyCode::RCtrl => 228,
        KeyCode::RShift => 229,
        KeyCode::RAlt => 230,
        KeyCode::RGui => 231,
    }
}

/// The HID keycode byte of a named key; never 0, so a filled report slot is
/// always distinguishable from an empty one.
pub fn hid_code(code: KeyCode) -> (r: u8)
    ensures
        r == spec_hid_code(code),
        r != 0,
{
    match code {
        KeyCode::A => 4,
        KeyCode::B => 5,
        KeyCode::C => 6,
        KeyCode::D => 7,
        KeyCode::E => 8,
        KeyCode::F => 9,
        KeyCode::G => 10,
        KeyCode::H => 11,
        KeyCode::I => 12,
        KeyCode::J => 13,
        KeyCode::K => 14,
        KeyCode::L => 15,
        KeyCode::M => 16,
        KeyCode::N => 17,
        KeyCode::O => 18,
        KeyCode::P => 19,
        KeyCode::Q => 20,
        KeyCode::R => 21,
        KeyCode::S => 22,
        KeyCode::T => 23,
        KeyCode::U => 24,
        KeyCode::V => 25,
        KeyCode::W => 26,
        KeyCode::X => 27,
        KeyCode::Y => 28,
        KeyCode::Z => 29,
        KeyCode::Kc1 => 30,
        KeyCode::Kc2 => 31,
        KeyCode::Kc3 => 32,
        KeyCode::Kc4 => 33,
        KeyCode::Kc5 => 34,
        KeyCode::Kc6 => 35,
        KeyCode::Kc7 => 36,
        KeyCode::Kc8 => 37,
        KeyCode::Kc9 => 38,
        KeyCode::Kc0 => 39,
        KeyCode::Enter => 40,
        KeyCode::Escape => 41,
        KeyCode::Backspace => 42,
        KeyCode::Tab => 43,
        KeyCode::Space => 44,
        KeyCode::Minus => 45,
        KeyCode::Equal => 46,
        KeyCode::LeftBracket => 47,
        KeyCode::RightBracket => 48,
        KeyCode::Backslash => 49,
        KeyCode::Semicolon => 51,
        KeyCode::Quote => 52,
        KeyCode::Grave => 53,
        KeyCode::Comma => 54,
        KeyCode::Dot => 55,
        KeyCode::Slash => 56,
        KeyCode::F1 => 58,
        KeyCode::F2 => 59,
        KeyCode::F3 => 60,
        KeyCode::F4 => 61,
        KeyCode::F5 => 62,
        KeyCode::F6 => 63,
        KeyCode::F7 => 64,
        KeyCode::F8 => 65,
        KeyCode::F9 => 66,
        KeyCode::F10 => 67,
        KeyCode::F11 => 68,
        KeyCode::F12 => 69,
        KeyCode::Home => 74,
        KeyCode::PageUp => 75,
        KeyCode::Delete => 76,
        KeyCode::End => 77,
        KeyCode::PageDown => 78,
        KeyCode::Right => 79,
        KeyCode::Left => 80,
        KeyCode::Down => 81,
        KeyCode::Up => 82,
        KeyCode::F13 => 104,
        KeyCode::F14 => 105,
        KeyCode::F15 => 106,
        KeyCode::KbMute => 127,
        KeyCode::KbVolumeUp => 128,
        KeyCode::KbVolumeDown => 129,
        KeyCode::LCtrl => 224,
        KeyCode::LShift => 225,
        KeyCode::LAlt => 226,
        KeyCode::LGui => 227,
        KeyCode::RCtrl => 228,
        KeyCode::RShift => 229,
        KeyCode::RAlt => 230,
        KeyCode::RGui => 231,
    }
}

/// The action a named key stands for: modifier keys contribute only their
/// modifier bit, every other key contributes its HID keycode.
pub open spec fn spec_k(code: KeyCode) -> Thing {
    if spec_modifier_bit(code) != 0 {
        Thing::RealKey((0, spec_modifier_bit(code)))
    } else {
        Thing::RealKey((spec_hid_code(code), 0))
    }
}

/// Translate a [KeyCode] into a valid [Thing].
pub fn k(code: KeyCode) -> (t: Thing)
    ensures
        t == spec_k(code),
        thing_wf(t),
{
    let maybe_modifier_key = modifier_key_bit_repr(code);
    if maybe_modifier_key != 0 {
        Thing::RealKey((0, maybe_modifier_key))
    } else {
        Thing::RealKey((hid_code(code), 0))
    }
}

/// Same as [spec_k], with the left-shift modifier bit OR'd in.
pub open spec fn spec_shift(code: KeyCode) -> Thing {
    match spec_k(code) {
        Thing::RealKey((hid, mods)) => Thing::RealKey((hid, mods | 0x02)),
        t => t,
    }
}

/// Translate a [KeyCode] into a valid [Thing] that also holds left-shift
/// while typing that keycode.
pub fn shift(code: KeyCode) -> (t: Thing)
    ensures
        t == spec_shift(code),
        thing_wf(t),
{
    match k(code) {
        Thing::RealKey((hid, mods)) => Thing::RealKey((hid, mods | 0x02)),
        t => t,
    }
}

/// Flip a row definition around, as the left-hand rows have their columns
/// pinned in the opposite direction from the right-hand rows. Column 0 is
/// "near the controller" and column 5 "near the sides".
pub fn rev<A: Copy>(r: [A; 6]) -> (out: [A; 6])
    ensures
        out@ =~= seq![r@[5], r@[4], r@[3], r@[2], r@[1], r@[0]],
{
    [r[5], r[4], r[3], r[2], r[1], r[0]]
}

/// Translate a chord [steno::KeyCode] into a valid [Thing].
pub fn st(code: steno::KeyCode) -> (t: Thing)
    ensures
        t == Thing::StenoKey(spec_packet_code(code)),
        thing_wf(t),
{
    Thing::StenoKey(code.to_packet_code())
}

/// Every action in one row is well formed.
pub open spec fn row_wf(r: Row) -> bool {
    forall|c: int| 0 <= c < 6 ==> thing_wf(#[trigger] r@[c])
}

/// Every action in a layer grid is well formed.
pub open spec fn layer_wf(l: Layer) -> bool {
    forall|i: int, c: int| 0 <= i < 8 && 0 <= c < 6 ==> thing_wf(#[trigger] l@[i]@[c])
}

/// Assemble a layer from its eight rows, top row first.
fn layer_from_rows(rows: [Row; 8]) -> (l: Layer)
    requires
        forall|i: int| 0 <= i < 8 ==> row_wf(#[trigger] rows@[i]),
    ensures
        layer_wf(l),
{
    let l = rows;
    proof {
        assert forall|i: int, c: int| 0 <= i < 8 && 0 <= c < 6 implies thing_wf(
            #[trigger] l@[i]@[c],
        ) by {
            assert(row_wf(rows@[i]));
        }
    }
    l
}

/// Regular layer for typing words.
pub fn layer_normal() -> (l: Layer)
    ensures
        layer_wf(l),
{
    layer_from_rows(
        [
            rev([k(KeyCode::Tab), k(KeyCode::Q), k(KeyCode::W), k(KeyCode::E), k(KeyCode::R), k(KeyCode::T)]),
            rev([k(KeyCode::Backspace), k(KeyCode::A), k(KeyCode::S), k(KeyCode::D), k(KeyCode::F), k(KeyCode::G)]),
            rev([k(KeyCode::Escape), k(KeyCode::Z), k(KeyCode::X), k(KeyCode::C), k(KeyCode::V), k(KeyCode::B)]),
            rev([k(KeyCode::LShift), Thing::FunctionKey, k(KeyCode::RGui), k(KeyCode::LAlt), k(KeyCode::LCtrl), Thing::LeftSymbolKey]),
            [k(KeyCode::Y), k(KeyCode::U), k(KeyCode::I), k(KeyCode::O), k(KeyCode::P), k(KeyCode::LeftBracket)],
            [k(KeyCode::H), k(KeyCode::J), k(KeyCode::K), k(KeyCode::L), k(KeyCode::Semicolon), k(KeyCode::Quote)],
            [k(KeyCode::N), k(KeyCode::M), k(KeyCode::Comma), k(KeyCode::Dot), k(KeyCode::Slash), Thing::NavKey],
            [Thing::RightSymbolKey, k(KeyCode::Space), k(KeyCode::LGui), k(KeyCode::RCtrl), k(KeyCode::RAlt), k(KeyCode::RShift)],
        ],
    )
}

/// Emulates the alternate (dvorak) layout on hosts configured for qwerty.
pub fn layer_dvorak_emu() -> (l: Layer)
    ensures
        layer_wf(l),
{
    layer_from_rows(
        [
            rev([k(KeyCode::Tab), k(KeyCode::Quote), k(KeyCode::Comma), k(KeyCode::Dot), k(KeyCode::P), k(KeyCode::Y)]),
            rev([k(KeyCode::Backspace), k(KeyCode::A), k(KeyCode::O), k(KeyCode::E), k(KeyCode::U), k(KeyCode::I)]),
            rev([k(KeyCode::Escape), k(KeyCode::Semicolon), k(KeyCode::Q), k(KeyCode::J), k(KeyCode::K), k(KeyCode::X)]),
            rev([k(KeyCode::LShift), Thing::FunctionKey, k(KeyCode::RGui), k(KeyCode::LAlt), k(KeyCode::LCtrl), Thing::LeftSymbolKey]),
            [k(KeyCode::F), k(KeyCode::G), k(KeyCode::C), k(KeyCode::R), k(KeyCode::L), k(KeyCode::Slash)],
            [k(KeyCode::D), k(KeyCode::H), k(KeyCode::T), k(KeyCode::N), k(KeyCode::S), k(KeyCode::Minus)],
            [k(KeyCode::B), k(KeyCode::M), k(KeyCode::W), k(KeyCode::V), k(KeyCode::Z), Thing::NavKey],
            [Thing::RightSymbolKey, k(KeyCode::Space), k(KeyCode::LGui), k(KeyCode::RCtrl), k(KeyCode::RAlt), k(KeyCode::RShift)],
        ],
    )
}

/// Layer for typing numbers and symbols.
pub fn layer_symbols() -> (l: Layer)
    ensures
        layer_wf(l),
{
    layer_from_rows(
        [
            rev([k(KeyCode::Grave), shift(KeyCode::Kc8), k(KeyCode::Kc9), k(KeyCode::Kc8), k(KeyCode::Kc7), shift(KeyCode::RightBracket)]),
            rev([k(KeyCode::Backspace), k(KeyCode::Backslash), k(KeyCode::Kc6), k(KeyCode::Kc5), k(KeyCode::Kc4), shift(KeyCode::Kc5)]),
            rev([shift(KeyCode::Kc2), k(KeyCode::Kc0), k(KeyCode::Kc3), k(KeyCode::Kc2), k(KeyCode::Kc1), k(KeyCode::Quote)]),
            rev([k(KeyCode::LShift), Thing::FunctionKey, k(KeyCode::RGui), k(KeyCode::LAlt), k(KeyCode::LCtrl), Thing::LeftSymbolKey]),
            [shift(KeyCode::Kc4), k(KeyCode::Minus), k(KeyCode::Equal), shift(KeyCode::Kc6), shift(KeyCode::Kc7), shift(KeyCode::Kc1)],
            [k(KeyCode::RightBracket), shift(KeyCode::Kc9), shift(KeyCode::Kc0), shift(KeyCode::Kc3), k(KeyCode::LeftBracket), k(KeyCode::Enter)],
            [Thing::Inactive, shift(KeyCode::Minus), shift(KeyCode::Equal), shift(KeyCode::Grave), shift(KeyCode::Backslash), Thing::NavKey],
            [Thing::RightSymbolKey, k(KeyCode::Space), k(KeyCode::LGui), k(KeyCode::RCtrl), k(KeyCode::RAlt), k(KeyCode::RShift)],
        ],
    )
}

/// Same as [layer_symbols], with a couple of changes for dvorak emulation.
pub fn layer_dvorak_emu_symbols() -> (l: Layer)
    ensures
        layer_wf(l),
{
    layer_from_rows(
        [
            rev([k(KeyCode::Grave), shift(KeyCode::Kc8), k(KeyCode::Kc9), k(KeyCode::Kc8), k(KeyCode::Kc7), shift(KeyCode::Equal)]),
            rev([k(KeyCode::Backspace), k(KeyCode::Backslash), k(KeyCode::Kc6), k(KeyCode::Kc5), k(KeyCode::Kc4), shift(KeyCode::Kc5)]),
            rev([shift(KeyCode::Kc2), k(KeyCode::Kc0), k(KeyCode::Kc3), k(KeyCode::Kc2), k(KeyCode::Kc1), k(KeyCode::Minus)]),
            rev([k(KeyCode::LShift), Thing::FunctionKey, k(KeyCode::RGui), k(KeyCode::LAlt), k(KeyCode::LCtrl), Thing::LeftSymbolKey]),
            [shift(KeyCode::Kc4), k(KeyCode::LeftBracket), k(KeyCode::RightBracket), shift(KeyCode::Kc6), shift(KeyCode::Kc7), shift(KeyCode::Kc1)],
            [k(KeyCode::Equal), shift(KeyCode::Kc9), shift(KeyCode::Kc0), shift(KeyCode::Kc3), k(KeyCode::Slash), k(KeyCode::Enter)],
            [Thing::Inactive, shift(KeyCode::LeftBracket), shift(KeyCode::RightBracket), shift(KeyCode::Grave), shift(KeyCode::Backslash), Thing::NavKey],
            [Thing::RightSymbolKey, k(KeyCode::Space), k(KeyCode::LGui), k(KeyCode::RCtrl), k(KeyCode::RAlt), k(KeyCode::RShift)],
        ],
    )
}

/// Layer for F-keys, arrows and other "navigation" keys.
pub fn layer_navigation() -> (l: Layer)
    ensures
        layer_wf(l),
{
    layer_from_rows(
        [
            rev([k(KeyCode::F15), k(KeyCode::F12), k(KeyCode::F9), k(KeyCode::F8), k(KeyCode::F7), Thing::Inactive]),
            rev([k(KeyCode::F14), k(KeyCode::F11), k(KeyCode::F6), k(KeyCode::F5), k(KeyCode::F4), Thing::Inactive]),
            rev([k(KeyCode::F13), k(KeyCode::F10), k(KeyCode::F3), k(KeyCode::F2), k(KeyCode::F1), Thing::Inactive]),
            rev([k(KeyCode::LShift), Thing::FunctionKey, k(KeyCode::RGui), k(KeyCode::LAlt), k(KeyCode::LCtrl), Thing::LeftSymbolKey]),
            [k(KeyCode::Delete), k(KeyCode::U), k(KeyCode::I), k(KeyCode::O), k(KeyCode::P), Thing::Inactive],
            [Thing::Inactive, k(KeyCode::Left), k(KeyCode::Down), k(KeyCode::Up), k(KeyCode::Right), k(KeyCode::Enter)],
            [Thing::Inactive, k(KeyCode::Home), k(KeyCode::PageDown), k(KeyCode::PageUp), k(KeyCode::End), Thing::NavKey],
            [Thing::RightSymbolKey, k(KeyCode::Space), k(KeyCode::LGui), k(KeyCode::RCtrl), k(KeyCode::RAlt), k(KeyCode::RShift)],
        ],
    )
}

/// Layer for changing modes, and special keys like volume.
pub fn layer_function() -> (l: Layer)
    ensures
        layer_wf(l),
{
    layer_from_rows(
        [
            rev([Thing::Inactive, Thing::Inactive, Thing::Inactive, Thing::Inactive, Thing::Inactive, Thing::Inactive]),
            rev([Thing::Inactive, Thing::Inactive, Thing::Inactive, Thing::Inactive, Thing::Inactive, Thing::Inactive]),
            rev([Thing::Inactive, Thing::Inactive, Thing::Inactive, Thing::Inactive, Thing::Inactive, Thing::Inactive]),
            rev([Thing::Inactive, Thing::FunctionKey, Thing::Inactive, Thing::Inactive, Thing::Inactive, Thing::LeftSymbolKey]),
            [Thing::Inactive, Thing::Inactive, Thing::Inactive, Thing::Inactive, Thing::Inactive, Thing::Inactive],
            [Thing::DvorakToggle, k(KeyCode::KbMute), k(KeyCode::KbVolumeDown), k(KeyCode::KbVolumeUp), Thing::StenoToggle, Thing::Inactive],
            [Thing::Inactive, Thing::Inactive, Thing::Inactive, Thing::Inactive, Thing::Inactive, Thing::NavKey],
            [Thing::RightSymbolKey, Thing::Inactive, Thing::Inactive, Thing::Inactive, Thing::Inactive, Thing::Inactive],
        ],
    )
}

/// Layer for sending serial chord codes like a stenotype machine.
pub fn layer_steno() -> (l: Layer)
    ensures
        layer_wf(l),
{
    layer_from_rows(
        [
            rev([Thing::Inactive, st(steno::KeyCode::S1), st(steno::KeyCode::TL), st(steno::KeyCode::PL), st(steno::KeyCode::HL), st(steno::KeyCode::ST1)]),
            rev([Thing::Inactive, st(steno::KeyCode::S2), st(steno::KeyCode::KL), st(steno::KeyCode::WL), st(steno::KeyCode::RL), st(steno::KeyCode::ST2)]),
            rev([Thing::Inactive, Thing::Inactive, Thing::Inactive, Thing::Inactive, Thing::Inactive, Thing::Inactive]),
            rev([st(steno::KeyCode::Number), Thing::StenoToggle, Thing::Inactive, st(steno::KeyCode::A), st(steno::KeyCode::O), Thing::LeftSymbolKey]),
            [st(steno::KeyCode::ST3), st(steno::KeyCode::FR), st(steno::KeyCode::PR), st(steno::KeyCode::LR), st(steno::KeyCode::TR), st(steno::KeyCode::DR)],
            [st(steno::KeyCode::ST4), st(steno::KeyCode::RR), st(steno::KeyCode::BR), st(steno::KeyCode::GR), st(steno::KeyCode::SR), st(steno::KeyCode::ZR)],
            [Thing::Inactive, Thing::Inactive, Thing::Inactive, Thing::Inactive, Thing::Inactive, Thing::NavKey],
            [Thing::RightSymbolKey, st(steno::KeyCode::E), st(steno::KeyCode::U), Thing::Inactive, Thing::Inactive, st(steno::KeyCode::Number)],
        ],
    )
}

} // verus!
