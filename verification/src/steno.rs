//! Chord-protocol encoder: maps each named chord-input key to a fixed
//! (byte offset, bit flag) position inside a 6-byte packet frame, following
//! the serial chord protocol understood by the receiving application.

use vstd::prelude::*;

verus! {

/// Byte offset of a chord key within a packet frame.
pub type BytePosition = u8;
/// Single-bit flag of a chord key within its packet byte.
pub type Flag = u8;
/// Where one chord key lives in the packet: (byte offset, bit flag).
pub type PacketCode = (BytePosition, Flag);
/// One 6-byte chord packet frame.
pub type Packet = [u8; 6];

/// The named chord-input keys of the chord layout.
#[derive(Clone, Copy, Debug)]
pub enum KeyCode {
    ST1,
    ST2,
    ST3,
    ST4,
    S1,
    TL,
    PL,
    HL,
    S2,
    KL,
    WL,
    RL,
    A,
    O,
    E,
    U,
    FR,
    PR,
    LR,
    TR,
    DR,
    RR,
    BR,
    GR,
    SR,
    ZR,
    Number,
}

/// The fixed packet position assigned to each chord key.
pub open spec fn spec_packet_code(k: KeyCode) -> PacketCode {
    match k {
        KeyCode::S1 => (1, 64),
        KeyCode::TL => (1, 16),
        KeyCode::PL => (1, 4),
        KeyCode::HL => (1, 1),
        KeyCode::S2 => (1, 32),
        KeyCode::KL => (1, 8),
        KeyCode::WL => (1, 2),
        KeyCode::RL => (2, 64),
        KeyCode::ST1 => (2, 8),
        KeyCode::ST2 => (2, 4),
        KeyCode::ST3 => (3, 32),
        KeyCode::ST4 => (3, 16),
        KeyCode::A => (2, 32),
        KeyCode::O => (2, 16),
        KeyCode::E => (3, 8),
        KeyCode::U => (3, 4),
        KeyCode::FR => (3, 2),
        KeyCode::PR => (4, 64),
        KeyCode::LR => (4, 16),
        KeyCode::TR => (4, 4),
        KeyCode::DR => (4, 1),
        KeyCode::RR => (3, 1),
        KeyCode::BR => (4, 32),
        KeyCode::GR => (4, 8),
        KeyCode::SR => (4, 2),
        KeyCode::ZR => (5, 1),
        KeyCode::Number => (0, 32),
    }
}

/// A packet code is well formed when its byte offset is inside the frame and
/// its flag is a single set bit that never collides with the reserved
/// lead-marker bit (bit 7 of byte 0).
pub open spec fn packet_code_wf(pc: PacketCode) -> bool {
    &&& pc.0 < 6
    &&& (pc.1 == 1 || pc.1 == 2 || pc.1 == 4 || pc.1 == 8 || pc.1 == 16 || pc.1 == 32 || pc.1
        == 64)
}

impl KeyCode {
    /// Encode this chord key as its packet position.
    pub fn to_packet_code(self) -> (r: PacketCode)
        ensures
            r == spec_packet_code(self),
            packet_code_wf(r),
    {
        match self {
            KeyCode::S1 => (1, 64),
            KeyCode::TL => (1, 16),
            KeyCode::PL => (1, 4),
            KeyCode::HL => (1, 1),
            KeyCode::S2 => (1, 32),
            KeyCode::KL => (1, 8),
            KeyCode::WL => (1, 2),
            KeyCode::RL => (2, 64),
            KeyCode::ST1 => (2, 8),
            KeyCode::ST2 => (2, 4),
            KeyCode::ST3 => (3, 32),
            KeyCode::ST4 => (3, 16),
            KeyCode::A => (2, 32),
            KeyCode::O => (2, 16),
            KeyCode::E => (3, 8),
            KeyCode::U => (3, 4),
            KeyCode::FR => (3, 2),
            KeyCode::PR => (4, 64),
            KeyCode::LR => (4, 16),
            KeyCode::TR => (4, 4),
            KeyCode::DR => (4, 1),
            KeyCode::RR => (3, 1),
            KeyCode::BR => (4, 32),
            KeyCode::GR => (4, 8),
            KeyCode::SR => (4, 2),
            KeyCode::ZR => (5, 1),
            KeyCode::Number => (0, 32),
        }
    }
}

} // verus!
