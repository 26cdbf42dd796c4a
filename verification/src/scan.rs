//! The per-tick engine: layer selection by a fixed priority cascade, the
//! debounce phases, and the fold that turns the resolved held actions into an
//! HID report frame, an accumulating chord packet and the next mode state.
//!
//! The electrical scan is a collaborator: it observes which positions are
//! pressed this tick and hands them to [Matrix::scan] as plain scan codes, in
//! row-major observation order, the auxiliary pedal position last.

use crate::keymap::{
    layer_dvorak_emu, layer_dvorak_emu_symbols, layer_function, layer_navigation, layer_normal,
    layer_steno, layer_symbols, layer_wf, thing_wf, Layer, Thing,
};
use crate::steno::Packet;
use crate::tracker::{
    dec_model, empty_hold, held_things, n_held, record_model, tracker_inv, HeldKeys, KeyHold,
    ScanCode,
};
use vstd::prelude::*;

verus! {

/// The engine's mode flags. The first four reflect "a selector key is held
/// this tick" and are recomputed from scratch every tick; the last three are
/// sticky and carried across ticks.
#[derive(Clone, Copy, Debug, PartialEq, Eq)]
pub struct MatrixState {
    pub left_symbol_key: bool,
    pub right_symbol_key: bool,
    pub nav_key: bool,
    pub function_key: bool,
    pub emulating_dvorak: bool,
    pub stenotype: bool,
    pub awaiting_clear: bool,
}

/// The state at rest: every flag false.
pub open spec fn init_state() -> MatrixState {
    MatrixState {
        left_symbol_key: false,
        right_symbol_key: false,
        nav_key: false,
        function_key: false,
        emulating_dvorak: false,
        stenotype: false,
        awaiting_clear: false,
    }
}

impl Default for MatrixState {
    fn default() -> (r: Self)
        ensures
            r == init_state(),
    {
        MatrixState {
            left_symbol_key: false,
            right_symbol_key: false,
            nav_key: false,
            function_key: false,
            emulating_dvorak: false,
            stenotype: false,
            awaiting_clear: false,
        }
    }
}

/// Which layer grid is active for a tick.
#[derive(Clone, Copy, Debug, PartialEq, Eq)]
pub enum LayerId {
    Function,
    Navigation,
    Symbols,
    DvorakEmuSymbols,
    Steno,
    DvorakEmu,
    Normal,
}

/// The layer priority cascade, first match wins: function; then navigation
/// (or both symbol selectors at once); then a symbol layer (picked by the
/// alternate-layout flag); then the chorded layer; then the alternate typing
/// layer; else the normal layer.
pub open spec fn chosen_layer(s: MatrixState) -> LayerId {
    if s.function_key {
        LayerId::Function
    } else if s.nav_key || (s.left_symbol_key && s.right_symbol_key) {
        LayerId::Navigation
    } else if s.left_symbol_key || s.right_symbol_key {
        if s.emulating_dvorak {
            LayerId::DvorakEmuSymbols
        } else {
            LayerId::Symbols
        }
    } else if s.stenotype {
        LayerId::Steno
    } else if s.emulating_dvorak {
        LayerId::DvorakEmu
    } else {
        LayerId::Normal
    }
}

/// An HID report frame: up to 6 simultaneous ordinary keycodes plus one
/// modifier bitmask byte.
#[derive(Clone, Copy, Debug, PartialEq, Eq)]
pub struct ReportFrame {
    pub modifier: u8,
    pub keycodes: [u8; 6],
}

/// A report that carries no keys and no modifiers.
pub open spec fn report_empty(r: ReportFrame) -> bool {
    r.modifier == 0 && forall|i: int| 0 <= i < 6 ==> r.keycodes@[i] == 0
}

/// The report holds exactly `keys` in order in its first slots, zeroes in the
/// rest, and exactly `modifier` as its modifier byte.
pub open spec fn report_matches(r: ReportFrame, keys: Seq<u8>, modifier: u8) -> bool {
    &&& r.modifier == modifier
    &&& keys.len() <= 6
    &&& forall|i: int| 0 <= i < keys.len() ==> r.keycodes@[i] == keys[i]
    &&& forall|i: int| keys.len() <= i < 6 ==> r.keycodes@[i] == 0
}

impl ReportFrame {
    /// The all-zero report.
    pub fn empty() -> (r: Self)
        ensures
            report_empty(r),
            report_matches(r, Seq::empty(), 0),
    {
        ReportFrame { modifier: 0, keycodes: [0u8;6] }
    }
}

/// The contents of a chord packet with no bits accumulated.
pub open spec fn zero_packet() -> Seq<u8> {
    Seq::new(6, |i: int| 0u8)
}

/// A freshly zeroed chord packet buffer.
pub fn empty_packet() -> (p: Packet)
    ensures
        p@ == zero_packet(),
{
    let p: Packet = [0u8;6];
    proof {
        assert(p@ =~= zero_packet());
    }
    p
}

/// The synthetic row index used for the auxiliary (pedal) input, one past the
/// last matrix row.
pub const PEDAL_ROW: u8 = 8;

/// The fixed HID keycode the pedal produces, whatever layer is active.
pub const MIC_MUTE_KEY: u8 = 198;

/// An observed scan code is valid when it lies inside the 8 by 6 matrix or is
/// the synthetic pedal position.
pub open spec fn scancode_valid(code: ScanCode) -> bool {
    (code.0 < 8 && code.1 < 6) || (code.0 == PEDAL_ROW && code.1 == 0)
}

/// The action an observed position resolves to against grid `g`: the pedal
/// always means its fixed key; a matrix position means its grid entry.
pub open spec fn resolve_action(g: Layer, code: ScanCode) -> Thing {
    if code.0 == PEDAL_ROW {
        Thing::RealKey((MIC_MUTE_KEY, 0))
    } else {
        g@[code.0 as int]@[code.1 as int]
    }
}

/// Ghost accumulator of the per-tick fold over the resolved held actions.
#[verifier::ext_equal]
pub ghost struct TickAccum {
    /// Ordinary keycodes placed into the outgoing report so far, in order.
    pub keys: Seq<u8>,
    /// Modifier bits OR-accumulated from the placed keys.
    pub modifier: u8,
    /// The chord packet bytes, bits OR-accumulated.
    pub packet: Seq<u8>,
    /// The mode state as the fold updates it.
    pub state: MatrixState,
}

/// One fold step: what a single resolved action contributes to the tick.
pub open spec fn tick_step(acc: TickAccum, t: Thing) -> TickAccum {
    match t {
        Thing::RealKey(key) => if acc.keys.len() < 6 {
            TickAccum {
                keys: acc.keys.push(key.0),
                modifier: acc.modifier | key.1,
                ..acc
            }
        } else {
            acc
        },
        Thing::StenoKey(pc) => if pc.0 < 6 {
            TickAccum {
                packet: acc.packet.update(pc.0 as int, acc.packet[pc.0 as int] | pc.1),
                state: MatrixState { awaiting_clear: true, ..acc.state },
                ..acc
            }
        } else {
            acc
        },
        Thing::LeftSymbolKey => TickAccum {
            state: MatrixState { left_symbol_key: true, ..acc.state },
            ..acc
        },
        Thing::RightSymbolKey => TickAccum {
            state: MatrixState { right_symbol_key: true, ..acc.state },
            ..acc
        },
        Thing::NavKey => TickAccum { state: MatrixState { nav_key: true, ..acc.state }, ..acc },
        Thing::FunctionKey => TickAccum {
            state: MatrixState { function_key: true, ..acc.state },
            ..acc
        },
        Thing::DvorakToggle => TickAccum {
            state: MatrixState {
                emulating_dvorak: if acc.state.awaiting_clear {
                    acc.state.emulating_dvorak
                } else {
                    !acc.state.emulating_dvorak
                },
                awaiting_clear: true,
                ..acc.state
            },
            ..acc
        },
        Thing::StenoToggle => TickAccum {
            state: MatrixState {
                stenotype: if acc.state.awaiting_clear {
                    acc.state.stenotype
                } else {
                    !acc.state.stenotype
                },
                awaiting_clear: true,
                ..acc.state
            },
            ..acc
        },
        Thing::Inactive => acc,
    }
}

/// Fold [tick_step] over the resolved actions, front to back.
pub open spec fn tick_fold(acc: TickAccum, things: Seq<Thing>) -> TickAccum
    decreases things.len(),
{
    if things.len() == 0 {
        acc
    } else {
        tick_fold(tick_step(acc, things[0]), things.skip(1))
    }
}

/// The per-tick selector flags are recomputed from scratch each tick.
pub open spec fn reset_tick_flags(s: MatrixState) -> MatrixState {
    MatrixState {
        left_symbol_key: false,
        right_symbol_key: false,
        nav_key: false,
        function_key: false,
        ..s
    }
}

/// The fold's starting point: empty report, the packet carried over from
/// earlier ticks of the chord in progress, and the per-tick flags cleared.
pub open spec fn init_accum(s: MatrixState, packet: Seq<u8>) -> TickAccum {
    TickAccum { keys: Seq::empty(), modifier: 0, packet, state: reset_tick_flags(s) }
}

/// Record each observed press in order, each resolved against grid `g`.
pub open spec fn record_all(s: Seq<KeyHold>, g: Layer, presses: Seq<ScanCode>) -> Seq<KeyHold>
    decreases presses.len(),
{
    if presses.len() == 0 {
        s
    } else {
        record_model(
            record_all(s, g, presses.drop_last()),
            presses.last(),
            resolve_action(g, presses.last()),
        )
    }
}

/// The scanning engine: the held-key tracker, the chord packet being built,
/// the mode state, and the layer grids it resolves presses against.
pub struct Matrix {
    pub held_keys: HeldKeys,
    pub steno_packet: Packet,
    pub state: MatrixState,
    pub layer_normal: Layer,
    pub layer_dvorak_emu: Layer,
    pub layer_symbols: Layer,
    pub layer_dvorak_emu_symbols: Layer,
    pub layer_navigation: Layer,
    pub layer_function: Layer,
    pub layer_steno: Layer,
}

impl Matrix {
    /// The engine's invariant: the tracker holds its front-packed invariant
    /// and every grid entry is well formed.
    pub open spec fn wf(self) -> bool {
        &&& tracker_inv(self.held_keys@)
        &&& layer_wf(self.layer_normal)
        &&& layer_wf(self.layer_dvorak_emu)
        &&& layer_wf(self.layer_symbols)
        &&& layer_wf(self.layer_dvorak_emu_symbols)
        &&& layer_wf(self.layer_navigation)
        &&& layer_wf(self.layer_function)
        &&& layer_wf(self.layer_steno)
    }

    /// The grid a layer identifier names.
    pub open spec fn grid(self, id: LayerId) -> Layer {
        match id {
            LayerId::Function => self.layer_function,
            LayerId::Navigation => self.layer_navigation,
            LayerId::Symbols => self.layer_symbols,
            LayerId::DvorakEmuSymbols => self.layer_dvorak_emu_symbols,
            LayerId::Steno => self.layer_steno,
            LayerId::DvorakEmu => self.layer_dvorak_emu,
            LayerId::Normal => self.layer_normal,
        }
    }

    /// Both engines carry the same layer grids.
    pub open spec fn layers_eq(self, other: Matrix) -> bool {
        &&& self.layer_normal == other.layer_normal
        &&& self.layer_dvorak_emu == other.layer_dvorak_emu
        &&& self.layer_symbols == other.layer_symbols
        &&& self.layer_dvorak_emu_symbols == other.layer_dvorak_emu_symbols
        &&& self.layer_navigation == other.layer_navigation
        &&& self.layer_function == other.layer_function
        &&& self.layer_steno == other.layer_steno
    }

    /// A fresh engine at rest: nothing held, packet empty, every flag false.
    pub fn new() -> (m: Matrix)
        ensures
            m.wf(),
            m.state == init_state(),
            m.held_keys@ == Seq::new(16, |i: int| empty_hold()),
            n_held(m.held_keys@) == 0,
            m.steno_packet@ == zero_packet(),
    {
        Matrix {
            held_keys: HeldKeys::default(),
            steno_packet: empty_packet(),
            state: MatrixState::default(),
            layer_normal: layer_normal(),
            layer_dvorak_emu: layer_dvorak_emu(),
            layer_symbols: layer_symbols(),
            layer_dvorak_emu_symbols: layer_dvorak_emu_symbols(),
            layer_navigation: layer_navigation(),
            layer_function: layer_function(),
            layer_steno: layer_steno(),
        }
    }

    /// Select the layer for this tick by the documented priority cascade.
    pub fn choose_layer_for_state(&self) -> (id: LayerId)
        ensures
            id == chosen_layer(self.state),
    {
        if self.state.function_key {
            LayerId::Function
        } else if self.state.nav_key || (self.state.left_symbol_key
            && self.state.right_symbol_key) {
            LayerId::Navigation
        } else if self.state.left_symbol_key || self.state.right_symbol_key {
            if self.state.emulating_dvorak {
                LayerId::DvorakEmuSymbols
            } else {
                LayerId::Symbols
            }
        } else if self.state.stenotype {
            LayerId::Steno
        } else if self.state.emulating_dvorak {
            LayerId::DvorakEmu
        } else {
            LayerId::Normal
        }
    }

    /// Resolve one observed position against the grid named by `id`.
    fn resolve(&self, id: LayerId, code: ScanCode) -> (t: Thing)
        requires
            self.wf(),
            scancode_valid(code),
        ensures
            t == resolve_action(self.grid(id), code),
            thing_wf(t),
    {
        if code.0 == PEDAL_ROW {
            Thing::RealKey((MIC_MUTE_KEY, 0))
        } else {
            let layer: &Layer = match id {
                LayerId::Function => &self.layer_function,
                LayerId::Navigation => &self.layer_navigation,
                LayerId::Symbols => &self.layer_symbols,
                LayerId::DvorakEmuSymbols => &self.layer_dvorak_emu_symbols,
                LayerId::Steno => &self.layer_steno,
                LayerId::DvorakEmu => &self.layer_dvorak_emu,
                LayerId::Normal => &self.layer_normal,
            };
            layer[code.0 as usize][code.1 as usize]
        }
    }
}

/// The tracker contents after a whole tick's decrement and record phases.
pub open spec fn spec_held_after(m: Matrix, presses: Seq<ScanCode>) -> Seq<KeyHold> {
    record_all(dec_model(m.held_keys@), m.grid(chosen_layer(m.state)), presses)
}

/// The fold's result for a whole tick.
pub open spec fn tick_accum(m: Matrix, presses: Seq<ScanCode>) -> TickAccum {
    tick_fold(init_accum(m.state, m.steno_packet@), held_things(spec_held_after(m, presses)))
}

/// Whether every key has debounced away by the end of the tick.
pub open spec fn tick_all_released(m: Matrix, presses: Seq<ScanCode>) -> bool {
    n_held(spec_held_after(m, presses)) == 0
}

/// The mode state the tick leaves behind: the fold's state, with the
/// awaiting-clear latch released exactly when everything is released.
pub open spec fn tick_new_state(m: Matrix, presses: Seq<ScanCode>) -> MatrixState {
    let st = tick_accum(m, presses).state;
    if st.awaiting_clear && tick_all_released(m, presses) {
        MatrixState { awaiting_clear: false, ..st }
    } else {
        st
    }
}

/// The chord packet emitted this tick: the accumulated packet exactly when
/// the latch releases, the zero packet otherwise.
pub open spec fn tick_emitted_packet(m: Matrix, presses: Seq<ScanCode>) -> Seq<u8> {
    let acc = tick_accum(m, presses);
    if acc.state.awaiting_clear && tick_all_released(m, presses) {
        acc.packet
    } else {
        zero_packet()
    }
}

/// The chord buffer carried into the next tick: zeroed exactly when the
/// packet was emitted, the accumulated packet otherwise.
pub open spec fn tick_stored_packet(m: Matrix, presses: Seq<ScanCode>) -> Seq<u8> {
    let acc = tick_accum(m, presses);
    if acc.state.awaiting_clear && tick_all_released(m, presses) {
        zero_packet()
    } else {
        acc.packet
    }
}

/// The ordinary keycodes the tick reports: none at all while the latch is
/// set, else the first six resolved ordinary keys in order.
pub open spec fn tick_report_keys(m: Matrix, presses: Seq<ScanCode>) -> Seq<u8> {
    let acc = tick_accum(m, presses);
    if acc.state.awaiting_clear {
        Seq::empty()
    } else {
        acc.keys
    }
}

/// The modifier byte the tick reports: zero while the latch is set, else the
/// OR of the reported keys' modifier bits.
pub open spec fn tick_report_modifier(m: Matrix, presses: Seq<ScanCode>) -> u8 {
    let acc = tick_accum(m, presses);
    if acc.state.awaiting_clear {
        0
    } else {
        acc.modifier
    }
}

/// The ghost accumulator the fold loop has reached, read off the engine's
/// live values.
pub open spec fn cur_accum(report: ReportFrame, n: int, packet: Packet, state: MatrixState)
    -> TickAccum {
    TickAccum { keys: report.keycodes@.take(n), modifier: report.modifier, packet: packet@, state }
}

impl Matrix {
    /// Run one full scan tick: decrement the held keys, record this tick's
    /// observed presses against the active layer, fold the resolved actions
    /// into the outputs, and drive the awaiting-clear latch. Always returns
    /// exactly one (report, emitted packet, state copy) triple.
    #[verifier::rlimit(60)]
    pub fn scan(&mut self, pressed: &Vec<ScanCode>) -> (out: (ReportFrame, Packet, MatrixState))
        requires
            old(self).wf(),
            forall|i: int| 0 <= i < pressed@.len() ==> scancode_valid(#[trigger] pressed@[i]),
        ensures
            final(self).wf(),
            final(self).layers_eq(*old(self)),
            final(self).held_keys@ == spec_held_after(*old(self), pressed@),
            final(self).state == tick_new_state(*old(self), pressed@),
            final(self).steno_packet@ == tick_stored_packet(*old(self), pressed@),
            out.2 == final(self).state,
            out.1@ == tick_emitted_packet(*old(self), pressed@),
            report_matches(
                out.0,
                tick_report_keys(*old(self), pressed@),
                tick_report_modifier(*old(self), pressed@),
            ),
    {
        let id = self.choose_layer_for_state();
        self.held_keys.decrement_holds();

        let mut pi: usize = 0;
        while pi < pressed.len()
            invariant
                pi <= pressed@.len(),
                self.wf(),
                self.layers_eq(*old(self)),
                self.state == old(self).state,
                self.steno_packet == old(self).steno_packet,
                id == chosen_layer(old(self).state),
                forall|i: int| 0 <= i < pressed@.len() ==> scancode_valid(#[trigger] pressed@[i]),
                self.held_keys@ == record_all(
                    dec_model(old(self).held_keys@),
                    old(self).grid(id),
                    pressed@.take(pi as int),
                ),
            decreases pressed@.len() - pi,
        {
            let code = pressed[pi];
            let t = self.resolve(id, code);
            proof {
                assert(self.grid(id) == old(self).grid(id));
            }
            self.held_keys.record_pressed(code, t);
            pi = pi + 1;
            proof {
                assert(pressed@.take(pi as int).drop_last() =~= pressed@.take(pi as int - 1));
                assert(pressed@.take(pi as int).last() == pressed@[pi as int - 1]);
            }
        }
        proof {
            assert(pressed@.take(pressed@.len() as int) =~= pressed@);
            assert(self.held_keys@ == spec_held_after(*old(self), pressed@));
        }

        self.state.left_symbol_key = false;
        self.state.right_symbol_key = false;
        self.state.nav_key = false;
        self.state.function_key = false;
        proof {
            assert(self.state == reset_tick_flags(old(self).state));
        }

        let things = self.held_keys.iter_pressed_things();
        proof {
            assert forall|j: int| 0 <= j < things@.len() implies thing_wf(things@[j]) by {
                crate::tracker::lemma_n_held_basic(self.held_keys@);
            }
        }

        let mut report = ReportFrame::empty();
        let mut next_idx: usize = 0;
        let mut ti: usize = 0;
        proof {
            assert(report.keycodes@.take(0) =~= Seq::<u8>::empty());
            assert(cur_accum(report, 0, self.steno_packet, self.state) =~= init_accum(
                old(self).state,
                old(self).steno_packet@,
            ));
            assert(things@.skip(0) =~= things@);
        }
        while ti < things.len()
            invariant
                ti <= things@.len(),
                next_idx <= 6,
                self.wf(),
                self.layers_eq(*old(self)),
                self.held_keys@ == spec_held_after(*old(self), pressed@),
                forall|j: int| 0 <= j < things@.len() ==> thing_wf(#[trigger] things@[j]),
                next_idx as int == report.keycodes@.take(next_idx as int).len(),
                forall|j: int| next_idx <= j < 6 ==> report.keycodes@[j] == 0,
                tick_fold(
                    cur_accum(report, next_idx as int, self.steno_packet, self.state),
                    things@.skip(ti as int),
                ) == tick_fold(
                    init_accum(old(self).state, old(self).steno_packet@),
                    things@,
                ),
            decreases things@.len() - ti,
        {
            let ghost cur = cur_accum(report, next_idx as int, self.steno_packet, self.state);
            let t = things[ti];
            match t {
                Thing::RealKey(key) => {
                    if next_idx < 6 {
                        report.modifier = report.modifier | key.1;
                        report.keycodes[next_idx] = key.0;
                        next_idx = next_idx + 1;
                        proof {
                            assert(report.keycodes@.take(next_idx as int) =~= cur.keys.push(
                                key.0,
                            ));
                        }
                    }
                },
                Thing::StenoKey(pc) => {
                    self.state.awaiting_clear = true;
                    let pos = pc.0 as usize;
                    let b = self.steno_packet[pos];
                    self.steno_packet[pos] = b | pc.1;
                },
                Thing::LeftSymbolKey => {
                    self.state.left_symbol_key = true;
                },
                Thing::RightSymbolKey => {
                    self.state.right_symbol_key = true;
                },
                Thing::NavKey => {
                    self.state.nav_key = true;
                },
                Thing::FunctionKey => {
                    self.state.function_key = true;
                },
                Thing::DvorakToggle => {
                    if !self.state.awaiting_clear {
                        self.state.emulating_dvorak = !self.state.emulating_dvorak;
                    }
                    self.state.awaiting_clear = true;
                },
                Thing::StenoToggle => {
                    if !self.state.awaiting_clear {
                        self.state.stenotype = !self.state.stenotype;
                    }
                    self.state.awaiting_clear = true;
                },
                Thing::Inactive => {},
            }
            ti = ti + 1;
            proof {
                let cur2 = cur_accum(report, next_idx as int, self.steno_packet, self.state);
                assert(cur2 =~= tick_step(cur, t));
                assert(things@.skip(ti as int - 1).skip(1) =~= things@.skip(ti as int));
                assert(things@.skip(ti as int - 1)[0] == t);
            }
        }
        proof {
            assert(things@.skip(things@.len() as int) =~= Seq::<Thing>::empty());
            assert(cur_accum(report, next_idx as int, self.steno_packet, self.state) == tick_accum(
                *old(self),
                pressed@,
            ));
        }

        if self.state.awaiting_clear {
            let all_released = self.held_keys.is_all_released();
            if all_released {
                self.state.awaiting_clear = false;
                let emitted = self.steno_packet;
                self.steno_packet = empty_packet();
                return (ReportFrame::empty(), emitted, self.state);
            } else {
                return (ReportFrame::empty(), empty_packet(), self.state);
            }
        }
        (report, empty_packet(), self.state)
    }
}

} // verus!
