//! The library's stated laws, proved over the models that the executable
//! functions are specified against: debounce stability, tracker invariant
//! preservation, layer priority, toggle-once-per-hold, chord accumulation
//! and report saturation.

use crate::keymap::{thing_wf, Thing};
use crate::scan::{
    chosen_layer, init_accum, reset_tick_flags, spec_held_after, tick_all_released,
    tick_emitted_packet, tick_fold, tick_new_state, tick_report_keys, tick_report_modifier,
    tick_step, zero_packet, LayerId, Matrix, MatrixState, TickAccum,
};
use crate::tracker::{
    code_count, dec_model, empty_hold, held_things, lemma_dec_all_empty, lemma_dec_code_count,
    lemma_dec_model_inv, lemma_n_held_eq, lemma_record_code_count_same, lemma_record_model_inv,
    n_held, record_model, tracker_inv, KeyHold, ScanCode, DEFAULT_DEBOUNCE_COUNT,
};
use vstd::prelude::*;

verus! {

/// The tracker after `k` consecutive decrement phases.
pub open spec fn dec_iter(s: Seq<KeyHold>, k: nat) -> Seq<KeyHold>
    decreases k,
{
    if k == 0 {
        s
    } else {
        dec_iter(dec_model(s), (k - 1) as nat)
    }
}

/// Debounce countdown: over `k` decrement phases with no re-observation, a
/// held key's remaining ticks drop by exactly one per phase, down to zero.
pub proof fn lemma_debounce_countdown(s: Seq<KeyHold>, code: ScanCode, k: nat)
    requires
        tracker_inv(s),
        k <= code_count(s, code),
    ensures
        tracker_inv(dec_iter(s, k)),
        code_count(dec_iter(s, k), code) == code_count(s, code) - k,
    decreases k,
{
    if k > 0 {
        lemma_dec_code_count(s, code);
        lemma_dec_model_inv(s);
        lemma_debounce_countdown(dec_model(s), code, (k - 1) as nat);
    }
}

/// Debounce stability, expiry half: a key observed once, at the debounce
/// constant, stays in the tracker for exactly five further decrement phases
/// and is gone after the fifth.
pub proof fn lemma_debounce_expires_after_five(s: Seq<KeyHold>, code: ScanCode)
    requires
        tracker_inv(s),
        code_count(s, code) == DEFAULT_DEBOUNCE_COUNT as int,
    ensures
        forall|k: nat| k < 5 ==> code_count(#[trigger] dec_iter(s, k), code) == 5 - k > 0,
        code_count(dec_iter(s, 5), code) == 0,
{
    assert forall|k: nat| k <= 5 implies code_count(#[trigger] dec_iter(s, k), code) == 5 - k by {
        lemma_debounce_countdown(s, code, k);
    }
}

/// Debounce stability, survival half: a key re-observed each tick (decrement
/// phase, then its press recorded) stands at the debounce constant again and
/// so never leaves the tracker.
pub proof fn lemma_rescan_keeps_held(s: Seq<KeyHold>, code: ScanCode, mapping: Thing)
    requires
        tracker_inv(s),
        code_count(s, code) == DEFAULT_DEBOUNCE_COUNT as int,
        thing_wf(mapping),
    ensures
        tracker_inv(record_model(dec_model(s), code, mapping)),
        code_count(record_model(dec_model(s), code, mapping), code) == DEFAULT_DEBOUNCE_COUNT
            as int,
{
    lemma_dec_code_count(s, code);
    lemma_dec_model_inv(s);
    lemma_record_code_count_same(dec_model(s), code, mapping);
    lemma_record_model_inv(dec_model(s), code, mapping);
}

/// One operation on the tracker: a decrement phase or one recorded press.
pub enum TrackerOp {
    Decrement,
    Record(ScanCode, Thing),
}

/// A record operation must carry a well-formed action.
pub open spec fn op_wf(op: TrackerOp) -> bool {
    match op {
        TrackerOp::Record(_, t) => thing_wf(t),
        TrackerOp::Decrement => true,
    }
}

/// What one operation does to the tracker.
pub open spec fn apply_op(s: Seq<KeyHold>, op: TrackerOp) -> Seq<KeyHold> {
    match op {
        TrackerOp::Decrement => dec_model(s),
        TrackerOp::Record(code, t) => record_model(s, code, t),
    }
}

/// What a sequence of operations does to the tracker, first to last.
pub open spec fn apply_ops(s: Seq<KeyHold>, ops: Seq<TrackerOp>) -> Seq<KeyHold>
    decreases ops.len(),
{
    if ops.len() == 0 {
        s
    } else {
        apply_ops(apply_op(s, ops[0]), ops.skip(1))
    }
}

/// Invariant preservation: after any sequence of record and decrement
/// operations, the tracker still keeps every held slot contiguous at the
/// front, in press order, with distinct scan codes and well-formed actions.
pub proof fn lemma_ops_preserve_invariant(s: Seq<KeyHold>, ops: Seq<TrackerOp>)
    requires
        tracker_inv(s),
        forall|i: int| 0 <= i < ops.len() ==> op_wf(#[trigger] ops[i]),
    ensures
        tracker_inv(apply_ops(s, ops)),
    decreases ops.len(),
{
    if ops.len() > 0 {
        match ops[0] {
            TrackerOp::Decrement => lemma_dec_model_inv(s),
            TrackerOp::Record(code, t) => lemma_record_model_inv(s, code, t),
        }
        lemma_ops_preserve_invariant(apply_op(s, ops[0]), ops.skip(1));
    }
}

/// Layer priority: for every combination of the mode flags the chosen layer
/// follows the documented cascade, first match winning.
pub proof fn lemma_layer_priority(s: MatrixState)
    ensures
        s.function_key ==> chosen_layer(s) == LayerId::Function,
        !s.function_key && (s.nav_key || (s.left_symbol_key && s.right_symbol_key))
            ==> chosen_layer(s) == LayerId::Navigation,
        !s.function_key && !s.nav_key && (s.left_symbol_key != s.right_symbol_key)
            ==> chosen_layer(s) == if s.emulating_dvorak {
                LayerId::DvorakEmuSymbols
            } else {
                LayerId::Symbols
            },
        !s.function_key && !s.nav_key && !s.left_symbol_key && !s.right_symbol_key && s.stenotype
            ==> chosen_layer(s) == LayerId::Steno,
        !s.function_key && !s.nav_key && !s.left_symbol_key && !s.right_symbol_key && !s.stenotype
            && s.emulating_dvorak ==> chosen_layer(s) == LayerId::DvorakEmu,
        !s.function_key && !s.nav_key && !s.left_symbol_key && !s.right_symbol_key && !s.stenotype
            && !s.emulating_dvorak ==> chosen_layer(s) == LayerId::Normal,
{
}

/// The mode state one tick leaves behind, given the resolved actions of that
/// tick and whether everything was released by its end.
pub open spec fn tick_state_model(s: MatrixState, things: Seq<Thing>, all_released: bool)
    -> MatrixState {
    let st = tick_fold(init_accum(s, zero_packet()), things).state;
    if st.awaiting_clear && all_released {
        MatrixState { awaiting_clear: false, ..st }
    } else {
        st
    }
}

/// The fold's state component does not depend on the packet carried in.
pub proof fn lemma_fold_state_ignores_packet(a: TickAccum, b: TickAccum, things: Seq<Thing>)
    requires
        a.state == b.state,
    ensures
        tick_fold(a, things).state == tick_fold(b, things).state,
    decreases things.len(),
{
    if things.len() > 0 {
        lemma_fold_state_ignores_packet(
            tick_step(a, things[0]),
            tick_step(b, things[0]),
            things.skip(1),
        );
    }
}

/// Bridge: the state a scan tick leaves behind is [tick_state_model] applied
/// to the tick's resolved actions and release condition.
pub proof fn lemma_tick_state_is_model(m: Matrix, presses: Seq<ScanCode>)
    ensures
        tick_new_state(m, presses) == tick_state_model(
            m.state,
            held_things(spec_held_after(m, presses)),
            tick_all_released(m, presses),
        ),
{
    lemma_fold_state_ignores_packet(
        init_accum(m.state, m.steno_packet@),
        init_accum(m.state, zero_packet()),
        held_things(spec_held_after(m, presses)),
    );
}

/// While the awaiting-clear latch is set, a tick's fold flips no toggle and
/// never releases the latch by itself.
pub proof fn lemma_latch_suppresses_toggles(acc: TickAccum, things: Seq<Thing>)
    requires
        acc.state.awaiting_clear,
    ensures
        tick_fold(acc, things).state.stenotype == acc.state.stenotype,
        tick_fold(acc, things).state.emulating_dvorak == acc.state.emulating_dvorak,
        tick_fold(acc, things).state.awaiting_clear,
    decreases things.len(),
{
    if things.len() > 0 {
        lemma_latch_suppresses_toggles(tick_step(acc, things[0]), things.skip(1));
    }
}

/// One tick during which the chorded-mode toggle is the one held key and not
/// everything is released.
pub open spec fn steno_toggle_tick(s: MatrixState) -> MatrixState {
    tick_state_model(s, seq![Thing::StenoToggle], false)
}

/// `k` such ticks in a row.
pub open spec fn steno_toggle_iter(s: MatrixState, k: nat) -> MatrixState
    decreases k,
{
    if k == 0 {
        s
    } else {
        steno_toggle_iter(steno_toggle_tick(s), (k - 1) as nat)
    }
}

/// Once the latch is set, further held-toggle ticks change nothing.
pub proof fn lemma_toggle_hold_stable(s: MatrixState, k: nat)
    requires
        s.awaiting_clear,
    ensures
        steno_toggle_iter(s, k).stenotype == s.stenotype,
        steno_toggle_iter(s, k).emulating_dvorak == s.emulating_dvorak,
        steno_toggle_iter(s, k).awaiting_clear,
    decreases k,
{
    if k > 0 {
        lemma_latch_suppresses_toggles(
            init_accum(s, zero_packet()),
            seq![Thing::StenoToggle],
        );
        lemma_toggle_hold_stable(steno_toggle_tick(s), (k - 1) as nat);
    }
}

/// Toggle debounce-through-hold: holding the chorded-mode toggle across any
/// number of consecutive ticks flips the mode exactly once, on the first
/// tick, and leaves the latch set for as long as the key is held.
pub proof fn lemma_toggle_flips_once_while_held(s: MatrixState, k: nat)
    requires
        !s.awaiting_clear,
        1 <= k,
    ensures
        steno_toggle_iter(s, k).stenotype == !s.stenotype,
        steno_toggle_iter(s, k).emulating_dvorak == s.emulating_dvorak,
        steno_toggle_iter(s, k).awaiting_clear,
{
    let acc0 = init_accum(s, zero_packet());
    let one = seq![Thing::StenoToggle];
    let acc1 = tick_step(acc0, Thing::StenoToggle);
    assert(one.skip(1) =~= Seq::<Thing>::empty());
    assert(one[0] == Thing::StenoToggle);
    assert(one.len() == 1);
    assert(tick_fold(acc1, Seq::<Thing>::empty()) == acc1);
    assert(tick_fold(acc0, one) == tick_fold(acc1, one.skip(1)));
    assert(tick_fold(acc0, one) == acc1);
    let s1 = steno_toggle_tick(s);
    assert(s1.stenotype == !s.stenotype && s1.awaiting_clear && s1.emulating_dvorak
        == s.emulating_dvorak);
    lemma_toggle_hold_stable(s1, (k - 1) as nat);
}

/// The flip becomes observable exactly at the tick on which everything has
/// been released: that tick clears the latch and changes no mode.
pub proof fn lemma_release_clears_latch(s: MatrixState)
    requires
        s.awaiting_clear,
    ensures
        !tick_state_model(s, Seq::empty(), true).awaiting_clear,
        tick_state_model(s, Seq::empty(), true).stenotype == s.stenotype,
        tick_state_model(s, Seq::empty(), true).emulating_dvorak == s.emulating_dvorak,
{
}

/// A tick at rest: with nothing held and nothing observed, the tick keeps the
/// tracker empty, reports no key and no modifier, emits no packet, and only
/// clears the per-tick selector flags of the state.
pub proof fn lemma_tick_at_rest(m: Matrix)
    requires
        m.held_keys@ == Seq::new(16, |i: int| empty_hold()),
        !m.state.awaiting_clear,
    ensures
        spec_held_after(m, Seq::empty()) == dec_model(m.held_keys@),
        n_held(spec_held_after(m, Seq::empty())) == 0,
        tick_report_keys(m, Seq::empty()).len() == 0,
        tick_report_modifier(m, Seq::empty()) == 0,
        tick_emitted_packet(m, Seq::empty()) == zero_packet(),
        tick_new_state(m, Seq::empty()) == reset_tick_flags(m.state),
{
    let held0 = m.held_keys@;
    lemma_dec_all_empty(held0);
    let held1 = dec_model(held0);
    assert(held1.len() == 16);
    lemma_n_held_eq(held1, 0);
    assert(held_things(held1) =~= Seq::<Thing>::empty());
    assert(spec_held_after(m, Seq::empty()) == held1);
}

/// The chord bits that a tick's resolved actions contribute to packet byte
/// `j`.
pub open spec fn chord_or(things: Seq<Thing>, j: int) -> u8
    decreases things.len(),
{
    if things.len() == 0 {
        0
    } else {
        (match things[0] {
            Thing::StenoKey(pc) => if pc.0 < 6 && pc.0 as int == j {
                pc.1
            } else {
                0
            },
            _ => 0,
        }) | chord_or(things.skip(1), j)
    }
}

/// Chord accumulation: after the fold, packet byte `j` holds exactly the bits
/// it carried in, OR every chord flag resolved at offset `j` this tick; no
/// bit is lost and none is invented.
pub proof fn lemma_chord_accumulation(acc: TickAccum, things: Seq<Thing>, j: int)
    requires
        0 <= j < 6,
        acc.packet.len() == 6,
    ensures
        tick_fold(acc, things).packet.len() == 6,
        tick_fold(acc, things).packet[j] == acc.packet[j] | chord_or(things, j),
    decreases things.len(),
{
    let a = acc.packet[j];
    if things.len() == 0 {
        assert(a | 0 == a) by (bit_vector);
    } else {
        let acc2 = tick_step(acc, things[0]);
        let c0 = match things[0] {
            Thing::StenoKey(pc) => if pc.0 < 6 && pc.0 as int == j {
                pc.1
            } else {
                0
            },
            _ => 0,
        };
        let rest = chord_or(things.skip(1), j);
        assert(acc2.packet.len() == 6);
        assert(acc2.packet[j] == a | c0) by {
            if c0 == 0 {
                assert(a | 0 == a) by (bit_vector);
            }
        }
        lemma_chord_accumulation(acc2, things.skip(1), j);
        assert((a | c0) | rest == a | (c0 | rest)) by (bit_vector);
    }
}

/// [lemma_chord_accumulation] at a tick's starting accumulator: each packet
/// byte after the fold holds the bits carried over from the chord in
/// progress, OR the flags resolved this tick.
pub proof fn lemma_tick_packet_bits(
    s: MatrixState,
    packet: Seq<u8>,
    things: Seq<Thing>,
    j: int,
)
    requires
        0 <= j < 6,
        packet.len() == 6,
    ensures
        tick_fold(init_accum(s, packet), things).packet[j] == packet[j] | chord_or(things, j),
{
    lemma_chord_accumulation(init_accum(s, packet), things, j);
}

/// The ordinary keycodes among a tick's resolved actions, in order.
pub open spec fn real_codes(things: Seq<Thing>) -> Seq<u8>
    decreases things.len(),
{
    if things.len() == 0 {
        Seq::empty()
    } else {
        (match things[0] {
            Thing::RealKey(key) => seq![key.0],
            _ => Seq::empty(),
        }) + real_codes(things.skip(1))
    }
}

/// As many of `s` as fit into `room`.
pub open spec fn take_fill(s: Seq<u8>, room: int) -> Seq<u8> {
    if s.len() <= room {
        s
    } else {
        s.take(room)
    }
}

/// Report saturation: the fold reports the resolved ordinary keys in
/// resolution order until the six report slots are full; the seventh and
/// later keys of a tick are dropped from the report, deterministically.
pub proof fn lemma_report_saturation(acc: TickAccum, things: Seq<Thing>)
    requires
        acc.keys.len() <= 6,
    ensures
        tick_fold(acc, things).keys == acc.keys + take_fill(
            real_codes(things),
            6 - acc.keys.len(),
        ),
    decreases things.len(),
{
    if things.len() == 0 {
        assert(acc.keys + take_fill(real_codes(things), 6 - acc.keys.len()) =~= acc.keys);
    } else {
        let acc2 = tick_step(acc, things[0]);
        let rest = real_codes(things.skip(1));
        let room = 6 - acc.keys.len();
        lemma_report_saturation(acc2, things.skip(1));
        match things[0] {
            Thing::RealKey(key) => {
                assert(real_codes(things) == seq![key.0] + rest);
                if acc.keys.len() < 6 {
                    if rest.len() <= room - 1 {
                        assert(acc.keys + take_fill(real_codes(things), room) =~= acc.keys.push(
                            key.0,
                        ) + take_fill(rest, room - 1));
                    } else {
                        assert((seq![key.0] + rest).take(room) =~= seq![key.0] + rest.take(
                            room - 1,
                        ));
                        assert(acc.keys + take_fill(real_codes(things), room) =~= acc.keys.push(
                            key.0,
                        ) + take_fill(rest, room - 1));
                    }
                } else {
                    assert(take_fill(real_codes(things), 0) =~= Seq::<u8>::empty());
                    assert(acc.keys + take_fill(real_codes(things), 0) =~= acc.keys);
                    assert(acc.keys + take_fill(rest, 0) =~= acc.keys);
                }
            },
            _ => {
                assert(real_codes(things) =~= rest);
            },
        }
    }
}

/// [lemma_report_saturation] at a tick's starting accumulator: the report
/// carries exactly the first six resolved ordinary keys, in order.
pub proof fn lemma_report_first_six(s: MatrixState, packet: Seq<u8>, things: Seq<Thing>)
    ensures
        tick_fold(init_accum(s, packet), things).keys == take_fill(real_codes(things), 6),
    decreases things.len(),
{
    lemma_report_saturation(init_accum(s, packet), things);
    assert(init_accum(s, packet).keys + take_fill(real_codes(things), 6) =~= take_fill(
        real_codes(things),
        6,
    ));
}

} // verus!
