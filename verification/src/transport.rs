//! Pure transport-boundary decisions: which report is worth sending (bit-exact
//! diffing against the last one sent) and how a finished chord packet is
//! framed on the wire (a lead-marked packet, then a lead-marked zero frame
//! signalling chord release). The USB delivery itself is a collaborator
//! outside this crate.

use crate::scan::{zero_packet, ReportFrame};
use crate::steno::Packet;
use vstd::prelude::*;

verus! {

/// The marker bit OR'd into the first byte of every chord frame on the wire.
pub const LEAD_MARKER: u8 = 0x80;

/// Whether any chord bit was accumulated into the packet.
pub open spec fn packet_nonzero(p: Seq<u8>) -> bool {
    exists|i: int| 0 <= i < p.len() && p[i] != 0
}

/// Check a packet for any accumulated chord bit.
pub fn packet_is_nonzero(p: &Packet) -> (r: bool)
    ensures
        r == packet_nonzero(p@),
{
    let mut i: usize = 0;
    let mut found = false;
    while i < 6
        invariant
            i <= 6,
            found == exists|j: int| 0 <= j < i && p@[j] != 0,
        decreases 6 - i,
    {
        if p[i] != 0 {
            found = true;
            proof {
                assert(0 <= i < 6 && p@[i as int] != 0);
            }
        }
        i = i + 1;
    }
    found
}

/// Frame a finished chord packet for the wire. A chord that accumulated no
/// bits sends nothing. A non-empty chord sends exactly two frames, in order:
/// the packet with the lead marker OR'd into its first byte, then an all-zero
/// frame bearing only the lead marker, which signals chord release.
pub fn frame_chord_packet(p: &Packet) -> (out: Option<(Packet, Packet)>)
    ensures
        out is Some <==> packet_nonzero(p@),
        out matches Some(frames) ==> {
            &&& frames.0@ == p@.update(0, p@[0] | LEAD_MARKER)
            &&& frames.1@ == zero_packet().update(0, LEAD_MARKER)
        },
{
    if packet_is_nonzero(p) {
        let mut lead = *p;
        lead[0] = lead[0] | LEAD_MARKER;
        let mut release: Packet = [0u8;6];
        release[0] = LEAD_MARKER;
        proof {
            assert(release@ =~= zero_packet().update(0, LEAD_MARKER));
        }
        Some((lead, release))
    } else {
        None
    }
}

/// Decide whether a report needs sending: only one that differs bit-exactly,
/// in modifier byte or any keycode slot, from the last report sent.
pub fn report_to_send(last: &ReportFrame, current: &ReportFrame) -> (out: Option<ReportFrame>)
    ensures
        out is Some <==> *current != *last,
        out matches Some(r) ==> r == *current,
{
    let mut i: usize = 0;
    let mut same = current.modifier == last.modifier;
    while i < 6
        invariant
            i <= 6,
            same == (current.modifier == last.modifier && forall|j: int|
                0 <= j < i ==> current.keycodes@[j] == last.keycodes@[j]),
        decreases 6 - i,
    {
        if current.keycodes[i] != last.keycodes[i] {
            same = false;
        }
        i = i + 1;
    }
    if same {
        proof {
            assert(current.keycodes@ =~= last.keycodes@);
            assert(current.keycodes == last.keycodes);
        }
        None
    } else {
        Some(*current)
    }
}

} // verus!
