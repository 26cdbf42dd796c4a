//! Debounced key-hold tracker: a fixed-capacity, front-packed array of the
//! physical keys currently considered held, each with a hysteresis counter.
//!
//! Invariant: all slots with a positive counter sit contiguously at the front,
//! in the order their keys were first pressed; every remaining slot has
//! counter 0 and counts as free. The front boundary is [n_held].

use crate::keymap::{thing_wf, Thing};
use vstd::prelude::*;

verus! {

/// Identifies a physical key position as (row, column).
pub type ScanCode = (u8, u8);

/// How many keys can be tracked as held at once; later presses are dropped.
pub const HELD_KEYS_LIMIT: usize = 16;

/// How many scan ticks a key stays logically held after its last observation.
pub const DEFAULT_DEBOUNCE_COUNT: u8 = 5;

/// A live record of one held key: where it was observed, what action it
/// resolved to when first pressed, and its remaining debounce ticks.
#[derive(Clone, Copy, Debug)]
pub struct KeyHold {
    pub debounce_count: u8,
    pub in_scancode: ScanCode,
    pub mapping: Thing,
}

/// The canonical contents of a free slot.
pub open spec fn empty_hold() -> KeyHold {
    KeyHold { debounce_count: 0, in_scancode: (0, 0), mapping: Thing::Inactive }
}

/// Length of the maximal prefix of slots with a positive counter.
pub open spec fn n_held(s: Seq<KeyHold>) -> int
    decreases s.len(),
{
    if s.len() == 0 || s[0].debounce_count == 0 {
        0
    } else {
        1 + n_held(s.skip(1))
    }
}

/// The tracker's invariant over its slot sequence: fixed capacity, nothing
/// held past the front boundary, and every held slot carries a well-formed
/// action.
pub open spec fn tracker_inv(s: Seq<KeyHold>) -> bool {
    &&& s.len() == HELD_KEYS_LIMIT
    &&& forall|i: int| n_held(s) <= i < s.len() ==> s[i].debounce_count == 0
    &&& forall|i: int| 0 <= i < n_held(s) ==> thing_wf(s[i].mapping)
    &&& forall|i: int, j: int|
        0 <= i < j < n_held(s) ==> s[i].in_scancode != s[j].in_scancode
}

/// Basic facts about the front boundary.
pub proof fn lemma_n_held_basic(s: Seq<KeyHold>)
    ensures
        0 <= n_held(s) <= s.len(),
        forall|i: int| 0 <= i < n_held(s) ==> s[i].debounce_count > 0,
        n_held(s) < s.len() ==> s[n_held(s)].debounce_count == 0,
    decreases s.len(),
{
    if s.len() == 0 || s[0].debounce_count == 0 {
    } else {
        lemma_n_held_basic(s.skip(1));
        assert forall|i: int| 0 <= i < n_held(s) implies s[i].debounce_count > 0 by {
            if i > 0 {
                assert(s[i] == s.skip(1)[i - 1]);
            }
        }
    }
}

/// The front boundary is the unique index below which every counter is
/// positive and at which (if inside the sequence) the counter is 0.
pub proof fn lemma_n_held_eq(s: Seq<KeyHold>, k: int)
    requires
        0 <= k <= s.len(),
        forall|i: int| 0 <= i < k ==> s[i].debounce_count > 0,
        k < s.len() ==> s[k].debounce_count == 0,
    ensures
        n_held(s) == k,
    decreases s.len(),
{
    if s.len() == 0 || s[0].debounce_count == 0 {
        assert(k == 0);
    } else {
        assert(forall|i: int| 0 <= i < k - 1 ==> s.skip(1)[i] == s[i + 1]);
        lemma_n_held_eq(s.skip(1), k - 1);
    }
}

/// First held slot whose scan code matches, or -1 when no held slot does.
pub open spec fn find_code(s: Seq<KeyHold>, code: ScanCode) -> int
    decreases s.len(),
{
    if s.len() == 0 || s[0].debounce_count == 0 {
        -1
    } else if s[0].in_scancode == code {
        0
    } else {
        let r = find_code(s.skip(1), code);
        if r < 0 {
            -1
        } else {
            r + 1
        }
    }
}

/// Where a scan of the slots from the front has seen only held, non-matching
/// slots up to `i`, [find_code] is decided by what stands at `i`.
pub proof fn lemma_find_code_prefix(s: Seq<KeyHold>, code: ScanCode, i: int)
    requires
        0 <= i <= s.len(),
        forall|j: int| 0 <= j < i ==> s[j].debounce_count > 0 && s[j].in_scancode != code,
    ensures
        i == s.len() ==> find_code(s, code) == -1,
        i < s.len() && s[i].debounce_count == 0 ==> find_code(s, code) == -1,
        i < s.len() && s[i].debounce_count > 0 && s[i].in_scancode == code ==> find_code(s, code)
            == i,
    decreases i,
{
    if i == 0 {
    } else {
        assert(forall|j: int| 0 <= j < i - 1 ==> s.skip(1)[j] == s[j + 1]);
        lemma_find_code_prefix(s.skip(1), code, i - 1);
    }
}

/// A found slot really is a held slot bearing the code; a miss means no held
/// slot bears it.
pub proof fn lemma_find_code_basic(s: Seq<KeyHold>, code: ScanCode)
    ensures
        -1 <= find_code(s, code) < n_held(s) || (n_held(s) == 0 && find_code(s, code) == -1),
        find_code(s, code) >= 0 ==> {
            &&& 0 <= find_code(s, code) < s.len()
            &&& s[find_code(s, code)].in_scancode == code
            &&& s[find_code(s, code)].debounce_count > 0
            &&& forall|j: int| 0 <= j < find_code(s, code) ==> s[j].in_scancode != code
        },
        find_code(s, code) == -1 ==> forall|j: int|
            0 <= j < n_held(s) ==> s[j].in_scancode != code,
    decreases s.len(),
{
    if s.len() == 0 || s[0].debounce_count == 0 {
    } else {
        lemma_find_code_basic(s.skip(1), code);
        if s[0].in_scancode != code {
            let r = find_code(s.skip(1), code);
            if r >= 0 {
                assert(find_code(s, code) == r + 1);
                assert(0 <= r < s.skip(1).len());
                assert(s[r + 1] == s.skip(1)[r]);
                assert forall|j: int| 0 <= j < find_code(s, code) implies s[j].in_scancode
                    != code by {
                    if j > 0 {
                        assert(0 <= j - 1 < s.skip(1).len());
                        assert(s[j] == s.skip(1)[j - 1]);
                    }
                }
            } else {
                lemma_n_held_basic(s);
                assert forall|j: int| 0 <= j < n_held(s) implies s[j].in_scancode != code by {
                    if j > 0 {
                        assert(0 <= j - 1 < s.skip(1).len());
                        assert(s[j] == s.skip(1)[j - 1]);
                        assert(j - 1 < n_held(s.skip(1)));
                    }
                }
            }
        }
    }
}

/// What recording one observed press does to the slots: refresh the counter
/// of the already-held matching slot, else fill the first free slot, else
/// (all slots held) drop the press.
pub open spec fn record_model(s: Seq<KeyHold>, code: ScanCode, mapping: Thing) -> Seq<KeyHold> {
    if find_code(s, code) >= 0 {
        s.update(
            find_code(s, code),
            KeyHold {
                debounce_count: DEFAULT_DEBOUNCE_COUNT,
                in_scancode: s[find_code(s, code)].in_scancode,
                mapping: s[find_code(s, code)].mapping,
            },
        )
    } else if n_held(s) < s.len() {
        s.update(
            n_held(s),
            KeyHold { debounce_count: DEFAULT_DEBOUNCE_COUNT, in_scancode: code, mapping },
        )
    } else {
        s
    }
}

/// One slot after a decrement: same key and action, one tick fewer.
pub open spec fn dec_hold(h: KeyHold) -> KeyHold {
    KeyHold {
        debounce_count: (h.debounce_count - 1) as u8,
        in_scancode: h.in_scancode,
        mapping: h.mapping,
    }
}

/// One decrement pass over arbitrary slots: every slot with a counter above 1
/// survives with its counter one lower, in order; every other slot is gone.
pub open spec fn dec_all(s: Seq<KeyHold>) -> Seq<KeyHold>
    decreases s.len(),
{
    if s.len() == 0 {
        Seq::empty()
    } else if s[0].debounce_count > 1 {
        seq![dec_hold(s[0])] + dec_all(s.skip(1))
    } else {
        dec_all(s.skip(1))
    }
}

/// What the decrement phase does to the whole tracker: the survivors keep
/// their order at the front and every remaining slot is freed.
pub open spec fn dec_model(s: Seq<KeyHold>) -> Seq<KeyHold> {
    dec_all(s) + Seq::new((s.len() - dec_all(s).len()) as nat, |i: int| empty_hold())
}

/// Survivors of a decrement pass: no more than there were slots, all still
/// held, and all well formed when the held inputs were.
pub proof fn lemma_dec_all(s: Seq<KeyHold>)
    requires
        forall|j: int| 0 <= j < s.len() && s[j].debounce_count > 0 ==> thing_wf(s[j].mapping),
    ensures
        dec_all(s).len() <= s.len(),
        forall|i: int|
            0 <= i < dec_all(s).len() ==> dec_all(s)[i].debounce_count > 0 && thing_wf(
                dec_all(s)[i].mapping,
            ),
    decreases s.len(),
{
    if s.len() == 0 {
    } else {
        assert(forall|j: int| 0 <= j < s.len() - 1 ==> s.skip(1)[j] == s[j + 1]);
        lemma_dec_all(s.skip(1));
    }
}

/// The slot `h` arose by decrementing some slot of `s` whose counter stood
/// above 1.
pub open spec fn hold_sourced(s: Seq<KeyHold>, h: KeyHold) -> bool {
    exists|j: int| 0 <= j < s.len() && s[j].debounce_count > 1 && h == dec_hold(#[trigger] s[j])
}

/// Every survivor of a decrement pass comes from a slot whose counter stood
/// above 1.
pub proof fn lemma_dec_all_sources(s: Seq<KeyHold>)
    ensures
        forall|i: int| 0 <= i < dec_all(s).len() ==> hold_sourced(s, #[trigger] dec_all(s)[i]),
    decreases s.len(),
{
    if s.len() == 0 {
    } else {
        lemma_dec_all_sources(s.skip(1));
        assert forall|i: int| 0 <= i < dec_all(s).len() implies hold_sourced(
            s,
            #[trigger] dec_all(s)[i],
        ) by {
            if s[0].debounce_count > 1 && i == 0 {
                assert(s[0].debounce_count > 1 && dec_all(s)[0] == dec_hold(s[0]));
            } else {
                let i2 = if s[0].debounce_count > 1 {
                    i - 1
                } else {
                    i
                };
                assert(dec_all(s)[i] == dec_all(s.skip(1))[i2]);
                assert(hold_sourced(s.skip(1), dec_all(s.skip(1))[i2]));
                let j2 = choose|j2: int|
                    0 <= j2 < s.skip(1).len() && s.skip(1)[j2].debounce_count > 1 && dec_all(
                        s.skip(1),
                    )[i2] == dec_hold(#[trigger] s.skip(1)[j2]);
                assert(s[j2 + 1] == s.skip(1)[j2]);
            }
        }
    }
}

/// A decrement pass keeps the held scan codes pairwise distinct.
pub proof fn lemma_dec_all_distinct(s: Seq<KeyHold>)
    requires
        forall|i: int, j: int|
            0 <= i < j < s.len() && s[i].debounce_count > 0 && s[j].debounce_count > 0
                ==> s[i].in_scancode != s[j].in_scancode,
    ensures
        forall|i: int, j: int|
            0 <= i < j < dec_all(s).len() ==> dec_all(s)[i].in_scancode != dec_all(
                s,
            )[j].in_scancode,
    decreases s.len(),
{
    if s.len() == 0 {
    } else {
        assert(forall|j: int| 0 <= j < s.len() - 1 ==> s.skip(1)[j] == s[j + 1]);
        lemma_dec_all_distinct(s.skip(1));
        lemma_dec_all_sources(s.skip(1));
        if s[0].debounce_count > 1 {
            assert forall|i: int, j: int| 0 <= i < j < dec_all(s).len() implies dec_all(
                s,
            )[i].in_scancode != dec_all(s)[j].in_scancode by {
                if i == 0 {
                    assert(dec_all(s)[j] == dec_all(s.skip(1))[j - 1]);
                    assert(hold_sourced(s.skip(1), dec_all(s.skip(1))[j - 1]));
                    let j2 = choose|j2: int|
                        0 <= j2 < s.skip(1).len() && s.skip(1)[j2].debounce_count > 1 && dec_all(
                            s.skip(1),
                        )[j - 1] == dec_hold(#[trigger] s.skip(1)[j2]);
                    assert(s[j2 + 1] == s.skip(1)[j2]);
                } else {
                    assert(dec_all(s)[i] == dec_all(s.skip(1))[i - 1]);
                    assert(dec_all(s)[j] == dec_all(s.skip(1))[j - 1]);
                }
            }
        }
    }
}

/// A decrement pass over slots that are all free or on their last tick leaves
/// nothing behind.
pub proof fn lemma_dec_all_empty(s: Seq<KeyHold>)
    requires
        forall|i: int| 0 <= i < s.len() ==> s[i].debounce_count <= 1,
    ensures
        dec_all(s).len() == 0,
    decreases s.len(),
{
    if s.len() > 0 {
        assert(forall|i: int| 0 <= i < s.len() - 1 ==> s.skip(1)[i] == s[i + 1]);
        lemma_dec_all_empty(s.skip(1));
    }
}

/// A decrement pass distributes over concatenation.
pub proof fn lemma_dec_all_concat(a: Seq<KeyHold>, b: Seq<KeyHold>)
    ensures
        dec_all(a + b) == dec_all(a) + dec_all(b),
    decreases a.len(),
{
    if a.len() == 0 {
        assert(a + b =~= b);
        assert(dec_all(a) + dec_all(b) =~= dec_all(b));
    } else {
        assert((a + b).skip(1) =~= a.skip(1) + b);
        assert((a + b)[0] == a[0]);
        lemma_dec_all_concat(a.skip(1), b);
        if a[0].debounce_count > 1 {
            assert(seq![dec_hold(a[0])] + (dec_all(a.skip(1)) + dec_all(b)) =~= (seq![
                dec_hold(a[0]),
            ] + dec_all(a.skip(1))) + dec_all(b));
        }
    }
}

/// The remaining debounce ticks of the held slot bearing `code`; 0 when no
/// held slot does.
pub open spec fn code_count(s: Seq<KeyHold>, code: ScanCode) -> int {
    if find_code(s, code) >= 0 {
        s[find_code(s, code)].debounce_count as int
    } else {
        0
    }
}

/// What one decrement phase does to a key's remaining ticks: one fewer, and
/// a key on its last tick leaves the tracker altogether.
pub proof fn lemma_dec_code_count(s: Seq<KeyHold>, code: ScanCode)
    requires
        tracker_inv(s),
    ensures
        code_count(dec_model(s), code) == if code_count(s, code) > 1 {
            code_count(s, code) - 1
        } else {
            0
        },
{
    lemma_n_held_basic(s);
    lemma_find_code_basic(s, code);
    lemma_dec_model_inv(s);
    lemma_dec_all_sources(s);
    let t = dec_model(s);
    let f = find_code(s, code);
    lemma_find_code_basic(t, code);
    lemma_n_held_basic(t);
    if f >= 0 && s[f].debounce_count > 1 {
        assert(s =~= s.take(f) + s.skip(f));
        lemma_dec_all_concat(s.take(f), s.skip(f));
        assert(dec_all(s) == dec_all(s.take(f)) + dec_all(s.skip(f)));
        assert(s.skip(f)[0] == s[f]);
        assert(dec_all(s.skip(f))[0] == dec_hold(s[f]));
        let kk = dec_all(s.take(f)).len() as int;
        lemma_dec_all_sources(s.take(f));
        assert(dec_all(s)[kk] == dec_all(s.skip(f))[0]);
        assert(t[kk] == dec_hold(s[f]));
        assert forall|j: int| 0 <= j < kk implies t[j].debounce_count > 0 && t[j].in_scancode
            != code by {
            assert(t[j] == dec_all(s)[j]);
            assert(dec_all(s)[j] == dec_all(s.take(f))[j]);
            assert(hold_sourced(s.take(f), dec_all(s.take(f))[j]));
            let j2 = choose|j2: int|
                0 <= j2 < s.take(f).len() && s.take(f)[j2].debounce_count > 1 && dec_all(
                    s.take(f),
                )[j] == dec_hold(#[trigger] s.take(f)[j2]);
            assert(s.take(f)[j2] == s[j2]);
        }
        lemma_find_code_prefix(t, code, kk);
        assert(find_code(t, code) == kk);
    } else {
        assert forall|i: int| 0 <= i < n_held(t) implies t[i].in_scancode != code by {
            assert(t[i] == dec_all(s)[i]);
            assert(hold_sourced(s, dec_all(s)[i]));
            let j = choose|j: int|
                0 <= j < s.len() && s[j].debounce_count > 1 && dec_all(s)[i] == dec_hold(
                    #[trigger] s[j],
                );
            assert(j < n_held(s));
            if t[i].in_scancode == code {
                assert(s[j].in_scancode == code);
                if f == -1 {
                } else {
                    assert(j != f);
                    if j < f {
                        assert(s[j].in_scancode != s[f].in_scancode);
                    } else {
                        assert(s[f].in_scancode != s[j].in_scancode);
                    }
                }
            }
        }
        if find_code(t, code) >= 0 {
            assert(find_code(t, code) < n_held(t));
            assert(false);
        }
    }
}

/// Re-observing a key refreshes its remaining ticks to the debounce constant;
/// an unseen key enters at the constant exactly when a slot is free.
pub proof fn lemma_record_code_count_same(s: Seq<KeyHold>, code: ScanCode, mapping: Thing)
    requires
        tracker_inv(s),
    ensures
        code_count(record_model(s, code, mapping), code) == if find_code(s, code) >= 0 || n_held(
            s,
        ) < s.len() {
            DEFAULT_DEBOUNCE_COUNT as int
        } else {
            0
        },
{
    lemma_n_held_basic(s);
    lemma_find_code_basic(s, code);
    let t = record_model(s, code, mapping);
    let f = find_code(s, code);
    if f >= 0 {
        lemma_find_code_prefix(t, code, f);
        assert(find_code(t, code) == f);
    } else if n_held(s) < s.len() {
        lemma_find_code_prefix(t, code, n_held(s));
        assert(find_code(t, code) == n_held(s));
    }
}

/// Recording one key's press leaves every other key's remaining ticks alone.
pub proof fn lemma_record_code_count_other(
    s: Seq<KeyHold>,
    code: ScanCode,
    other: ScanCode,
    mapping: Thing,
)
    requires
        tracker_inv(s),
        code != other,
    ensures
        code_count(record_model(s, other, mapping), code) == code_count(s, code),
{
    lemma_n_held_basic(s);
    lemma_find_code_basic(s, code);
    lemma_find_code_basic(s, other);
    let t = record_model(s, other, mapping);
    let f = find_code(s, code);
    let fo = find_code(s, other);
    if f >= 0 {
        assert forall|j: int| 0 <= j < f implies t[j].debounce_count > 0 && t[j].in_scancode
            != code by {
            if fo >= 0 && j == fo {
                assert(t[j].in_scancode == s[fo].in_scancode);
            } else {
                assert(t[j] == s[j]);
            }
        }
        assert(t[f] == s[f]);
        lemma_find_code_prefix(t, code, f);
        assert(find_code(t, code) == f);
    } else {
        if fo >= 0 {
            lemma_find_code_prefix(t, code, n_held(s));
            assert(find_code(t, code) == -1);
        } else if n_held(s) < s.len() {
            assert forall|j: int| 0 <= j < n_held(s) + 1 implies t[j].debounce_count > 0
                && t[j].in_scancode != code by {
                if j < n_held(s) {
                    assert(t[j] == s[j]);
                } else {
                    assert(t[j].in_scancode == other);
                }
            }
            lemma_find_code_prefix(t, code, n_held(s) + 1);
            assert(find_code(t, code) == -1);
        } else {
            assert(t == s);
        }
    }
}

/// The decremented tracker satisfies the invariant again, with exactly the
/// survivors held.
pub proof fn lemma_dec_model_inv(s: Seq<KeyHold>)
    requires
        tracker_inv(s),
    ensures
        tracker_inv(dec_model(s)),
        n_held(dec_model(s)) == dec_all(s).len(),
        forall|i: int| 0 <= i < dec_all(s).len() ==> dec_model(s)[i] == dec_all(s)[i],
{
    lemma_n_held_basic(s);
    lemma_dec_all(s);
    lemma_dec_all_distinct(s);
    lemma_n_held_eq(dec_model(s), dec_all(s).len() as int);
}

/// The recorded tracker satisfies the invariant again.
pub proof fn lemma_record_model_inv(s: Seq<KeyHold>, code: ScanCode, mapping: Thing)
    requires
        tracker_inv(s),
        thing_wf(mapping),
    ensures
        tracker_inv(record_model(s, code, mapping)),
        n_held(record_model(s, code, mapping)) == if find_code(s, code) >= 0 || n_held(s)
            == s.len() {
            n_held(s)
        } else {
            n_held(s) + 1
        },
{
    lemma_n_held_basic(s);
    lemma_find_code_basic(s, code);
    let f = find_code(s, code);
    if f >= 0 {
        let s2 = record_model(s, code, mapping);
        lemma_n_held_eq(s2, n_held(s));
    } else if n_held(s) < s.len() {
        let s2 = record_model(s, code, mapping);
        lemma_n_held_eq(s2, n_held(s) + 1);
    }
}

/// The ordered fixed-capacity collection of currently-held keys.
pub struct HeldKeys(pub [KeyHold; 16]);

impl View for HeldKeys {
    type V = Seq<KeyHold>;

    open spec fn view(&self) -> Seq<KeyHold> {
        self.0@
    }
}

/// The actions of the held slots, front to back, in press order.
pub open spec fn held_things(s: Seq<KeyHold>) -> Seq<Thing> {
    s.take(n_held(s)).map(|i: int, h: KeyHold| h.mapping)
}

impl Default for HeldKeys {
    /// An empty tracker: every slot free.
    fn default() -> (r: Self)
        ensures
            tracker_inv(r@),
            n_held(r@) == 0,
            r@ == Seq::new(16, |i: int| empty_hold()),
    {
        let slot = KeyHold { debounce_count: 0, in_scancode: (0, 0), mapping: Thing::Inactive };
        let r = HeldKeys([slot; 16]);
        proof {
            assert(r@ =~= Seq::new(16, |i: int| empty_hold()));
            lemma_n_held_eq(r@, 0);
        }
        r
    }
}

impl HeldKeys {
    /// Record one observed press of `code`, resolved to `mapping` by the
    /// layer active at observation time. A key already held is refreshed in
    /// place, keeping its originally captured action; a new key takes the
    /// first free slot; with no free slot the press is dropped.
    pub fn record_pressed(&mut self, code: ScanCode, mapping: Thing)
        requires
            tracker_inv(old(self)@),
            thing_wf(mapping),
        ensures
            tracker_inv(final(self)@),
            final(self)@ == record_model(old(self)@, code, mapping),
    {
        for i in 0..16usize
            invariant
                self@ == old(self)@,
                tracker_inv(old(self)@),
                thing_wf(mapping),
                forall|j: int|
                    0 <= j < i ==> self@[j].debounce_count > 0 && self@[j].in_scancode != code,
        {
            let h = self.0[i];
            if h.debounce_count > 0 {
                if h.in_scancode.0 == code.0 && h.in_scancode.1 == code.1 {
                    proof {
                        assert(h.in_scancode == code);
                        lemma_find_code_prefix(old(self)@, code, i as int);
                        lemma_record_model_inv(old(self)@, code, mapping);
                    }
                    self.0[i] = KeyHold {
                        debounce_count: DEFAULT_DEBOUNCE_COUNT,
                        in_scancode: h.in_scancode,
                        mapping: h.mapping,
                    };
                    return ;
                }
            } else {
                proof {
                    lemma_find_code_prefix(old(self)@, code, i as int);
                    lemma_n_held_eq(old(self)@, i as int);
                    lemma_record_model_inv(old(self)@, code, mapping);
                }
                self.0[i] = KeyHold {
                    debounce_count: DEFAULT_DEBOUNCE_COUNT,
                    in_scancode: code,
                    mapping,
                };
                return ;
            }
        }
        proof {
            lemma_find_code_prefix(old(self)@, code, 16);
            lemma_n_held_eq(old(self)@, 16);
            lemma_record_model_inv(old(self)@, code, mapping);
        }
    }

    /// The resolved actions of all held keys, in press order.
    pub fn iter_pressed_things(&self) -> (out: Vec<Thing>)
        requires
            tracker_inv(self@),
        ensures
            out@ == held_things(self@),
    {
        proof {
            lemma_n_held_basic(self@);
        }
        let mut out: Vec<Thing> = Vec::new();
        let mut i: usize = 0;
        while i < 16 && self.0[i].debounce_count > 0
            invariant
                tracker_inv(self@),
                i <= n_held(self@),
                out@ =~= self@.take(i as int).map(|j: int, h: KeyHold| h.mapping),
            decreases 16 - i,
        {
            proof {
                lemma_n_held_basic(self@);
            }
            out.push(self.0[i].mapping);
            i = i + 1;
            proof {
                assert(out@ =~= self@.take(i as int).map(|j: int, h: KeyHold| h.mapping));
            }
        }
        proof {
            lemma_n_held_basic(self@);
            assert(i == n_held(self@));
        }
        out
    }

    /// Whether nothing at all is held: with the front-packed invariant, the
    /// first slot being free decides it.
    pub fn is_all_released(&self) -> (r: bool)
        requires
            tracker_inv(self@),
        ensures
            r == (n_held(self@) == 0),
    {
        self.0[0].debounce_count == 0
    }

    /// One decrement phase: every held key loses one debounce tick; keys that
    /// reach 0 leave, the survivors close ranks at the front in order, and
    /// the freed slots are cleared.
    pub fn decrement_holds(&mut self)
        requires
            tracker_inv(old(self)@),
        ensures
            tracker_inv(final(self)@),
            final(self)@ == dec_model(old(self)@),
    {
        proof {
            lemma_dec_model_inv(old(self)@);
            assert(old(self)@.skip(0) =~= old(self)@);
            assert(self@.take(0) + dec_all(old(self)@) =~= dec_all(old(self)@));
        }
        let mut w: usize = 0;
        for r in 0..16usize
            invariant
                w <= r,
                tracker_inv(old(self)@),
                self@.len() == 16,
                w as int == self@.take(w as int).len(),
                self@.take(w as int) + dec_all(old(self)@.skip(r as int)) == dec_all(old(self)@),
                forall|j: int| r <= j < 16 ==> self@[j] == old(self)@[j],
        {
            let h = self.0[r];
            let ghost pre = self@.take(w as int);
            proof {
                assert(old(self)@.skip(r as int)[0] == h);
                assert(old(self)@.skip(r as int).skip(1) =~= old(self)@.skip(r as int + 1));
            }
            if h.debounce_count > 1 {
                self.0[w] = KeyHold {
                    debounce_count: h.debounce_count - 1,
                    in_scancode: h.in_scancode,
                    mapping: h.mapping,
                };
                w = w + 1;
                proof {
                    assert(self@.take(w as int) =~= pre.push(dec_hold(h)));
                    assert(pre.push(dec_hold(h)) + dec_all(old(self)@.skip(r as int + 1)) =~= pre
                        + dec_all(old(self)@.skip(r as int)));
                }
            }
        }
        proof {
            assert(old(self)@.skip(16) =~= Seq::<KeyHold>::empty());
            assert(self@.take(w as int) + dec_all(old(self)@.skip(16)) =~= self@.take(w as int));
        }
        let survivors = w;
        while w < 16
            invariant
                survivors <= w <= 16,
                self@.len() == 16,
                self@.take(survivors as int) == dec_all(old(self)@),
                survivors as int == dec_all(old(self)@).len(),
                forall|j: int| survivors <= j < w ==> self@[j] == empty_hold(),
            decreases 16 - w,
        {
            self.0[w] = KeyHold {
                debounce_count: 0,
                in_scancode: (0, 0),
                mapping: Thing::Inactive,
            };
            w = w + 1;
        }
        proof {
            assert(self@ =~= dec_model(old(self)@));
        }
    }
}

} // verus!
