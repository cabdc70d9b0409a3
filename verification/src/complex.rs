//! The key-combination state machine.
//!
//! A [`ComboTracker`] consumes normalized key transitions and maintains the
//! combination: the labels of the currently-held keys, ordered by first
//! press within the current span.  Each transition yields the direct
//! per-key event followed by the classified combination event, tagged
//! `press` when the combination starts, `combination` while it changes, and
//! `release` when it ends; the terminal `release` event carries the
//! combination as it stood immediately before the final removal, and only
//! then is the combination cleared.
//!
//! The ghost replay model: [`held_after`] folds a history of transitions
//! into the held-label list, and the tracker's state always equals that
//! fold of its own history.  [`lemma_held_after_tracks_keys`] shows the
//! list holds exactly the keys whose most recent transition is an
//! unreleased press, without duplicates; [`lemma_press_transition`] and
//! [`lemma_release_transition`] show a press only ever appends and a
//! release only ever deletes, so the surviving labels keep first-press
//! order whatever the release order.

use vstd::prelude::*;
use vstd::seq_lib::lemma_seq_contains_after_push;
use vstd::string::StringExecFns;
use crate::models::{ComplexKeyEvent, KeyEvent};

verus! {

/// The label view of a list of owned key names.
pub open spec fn label_seq(v: Seq<String>) -> Seq<Seq<char>> {
    v.map_values(|s: String| s@)
}

/// One normalized key transition, as replay history.
pub enum KeyAct {
    Press(Seq<char>),
    Release(Seq<char>),
}

/// The held-label list after replaying `s`: a press appends the label
/// unless it is already held, a release deletes it.
pub open spec fn held_after(s: Seq<KeyAct>) -> Seq<Seq<char>>
    decreases s.len(),
{
    if s.len() == 0 {
        Seq::empty()
    } else {
        let prev = held_after(s.drop_last());
        match s.last() {
            KeyAct::Press(k) => if prev.contains(k) {
                prev
            } else {
                prev.push(k)
            },
            KeyAct::Release(k) => prev.remove_value(k),
        }
    }
}

/// Key `k` is down after `s`: its most recent transition is a press.
pub open spec fn key_down(s: Seq<KeyAct>, k: Seq<char>) -> bool
    decreases s.len(),
{
    if s.len() == 0 {
        false
    } else {
        match s.last() {
            KeyAct::Press(j) => j == k || key_down(s.drop_last(), k),
            KeyAct::Release(j) => j != k && key_down(s.drop_last(), k),
        }
    }
}

/// There is a press of `k` at position `i` of `s` with no later release of
/// `k`.
pub open spec fn press_live_at(s: Seq<KeyAct>, k: Seq<char>, i: int) -> bool {
    &&& 0 <= i < s.len()
    &&& s[i] == KeyAct::Press(k)
    &&& forall|j: int| i < j < s.len() ==> s[j] != KeyAct::Release(k)
}

/// Deleting the first occurrence of `k` from a duplicate-free list keeps it
/// duplicate-free and removes exactly the membership of `k`.
pub(crate) proof fn lemma_remove_value_props(s: Seq<Seq<char>>, k: Seq<char>)
    requires
        s.no_duplicates(),
    ensures
        s.remove_value(k).no_duplicates(),
        forall|x: Seq<char>|
            #[trigger] s.remove_value(k).contains(x) <==> (s.contains(x) && x != k),
        !s.contains(k) ==> s.remove_value(k) == s,
        s.contains(k) ==> s.remove_value(k).len() == s.len() - 1,
{
    s.index_of_first_ensures(k);
    match s.index_of_first(k) {
        Option::None => {
            assert forall|x: Seq<char>|
                #[trigger] s.remove_value(k).contains(x) implies (s.contains(x) && x != k) by {
                if x == k {
                    assert(s.contains(k));
                }
            }
        },
        Option::Some(i) => {
            s.remove_ensures(i);
            let r = s.remove(i);
            assert forall|x: Seq<char>| #[trigger] r.contains(x) implies (s.contains(x) && x
                != k) by {
                let j = choose|j: int| 0 <= j < r.len() && r[j] == x;
                if j < i {
                    assert(s[j] == x);
                    if x == k {
                        assert(s[j] == s[i]);
                        assert(false);
                    }
                } else {
                    assert(s[j + 1] == x);
                    if x == k {
                        assert(s[j + 1] == s[i]);
                        assert(false);
                    }
                }
            }
            assert forall|x: Seq<char>| s.contains(x) && x != k implies #[trigger] r.contains(
                x,
            ) by {
                let j = choose|j: int| 0 <= j < s.len() && s[j] == x;
                if j < i {
                    assert(r[j] == x);
                } else {
                    assert(j != i);
                    assert(r[j - 1] == s[j]);
                }
            }
            assert forall|p: int, q: int|
                0 <= p < r.len() && 0 <= q < r.len() && p != q implies r[p] != r[q] by {
                let sp: int = if p < i { p } else { p + 1 };
                let sq: int = if q < i { q } else { q + 1 };
                assert(r[p] == s[sp] && r[q] == s[sq]);
            }
        },
    }
}

/// The held-label list holds exactly the keys that are down, without
/// duplicates: after any replay, a key is in the list if and only if its
/// most recent transition is an unreleased press.
pub proof fn lemma_held_after_tracks_keys(s: Seq<KeyAct>)
    ensures
        held_after(s).no_duplicates(),
        forall|k: Seq<char>| #[trigger] held_after(s).contains(k) <==> key_down(s, k),
    decreases s.len(),
{
    if s.len() > 0 {
        lemma_held_after_tracks_keys(s.drop_last());
        let prev = held_after(s.drop_last());
        match s.last() {
            KeyAct::Press(k) => {
                if !prev.contains(k) {
                    let h = prev.push(k);
                    assert forall|x: Seq<char>| #[trigger] h.contains(x) <==> key_down(s, x) by {
                        lemma_seq_contains_after_push(prev, k, x);
                    }
                    assert forall|p: int, q: int|
                        0 <= p < h.len() && 0 <= q < h.len() && p != q implies h[p] != h[q] by {
                        if p < prev.len() && q < prev.len() {
                        } else if q == prev.len() {
                            assert(h[q] == k);
                            if h[p] == k {
                                assert(prev.contains(k));
                            }
                        } else {
                            assert(h[p] == k);
                            if h[q] == k {
                                assert(prev.contains(k));
                            }
                        }
                    }
                }
            },
            KeyAct::Release(k) => {
                lemma_remove_value_props(prev, k);
            },
        }
    }
}

/// A key is down exactly when some press of it has no later release: the
/// pressed set after a replay is the set of keys pressed but not yet
/// released.
pub proof fn lemma_key_down_iff_unreleased_press(s: Seq<KeyAct>, k: Seq<char>)
    ensures
        key_down(s, k) <==> exists|i: int| press_live_at(s, k, i),
    decreases s.len(),
{
    if s.len() == 0 {
        assert(!(exists|i: int| press_live_at(s, k, i)));
    } else {
        let t = s.drop_last();
        lemma_key_down_iff_unreleased_press(t, k);
        let last = s.last();
        if last == KeyAct::Press(k) {
            assert(press_live_at(s, k, s.len() - 1));
        } else if last == KeyAct::Release(k) {
            assert forall|i: int| !press_live_at(s, k, i) by {
                if 0 <= i < s.len() && s[i] == KeyAct::Press(k) {
                    assert(s[s.len() - 1] == KeyAct::Release(k));
                }
            }
        } else {
            // the last transition concerns another key
            if key_down(t, k) {
                let i = choose|i: int| press_live_at(t, k, i);
                assert forall|j: int| i < j < s.len() implies s[j] != KeyAct::Release(k) by {
                    if j < s.len() - 1 {
                        assert(t[j] != KeyAct::Release(k));
                    }
                }
                assert(press_live_at(s, k, i));
            }
            if exists|i: int| press_live_at(s, k, i) {
                let i = choose|i: int| press_live_at(s, k, i);
                assert(i < s.len() - 1);
                assert(press_live_at(t, k, i));
            }
        }
    }
}

/// A press appends the label at the end of the combination when it is new,
/// and changes nothing when the key is already held.
pub proof fn lemma_press_transition(s: Seq<KeyAct>, k: Seq<char>)
    ensures
        !held_after(s).contains(k) ==> held_after(s.push(KeyAct::Press(k))) == held_after(
            s,
        ).push(k),
        held_after(s).contains(k) ==> held_after(s.push(KeyAct::Press(k))) == held_after(s),
{
    assert(s.push(KeyAct::Press(k)).drop_last() =~= s);
}

/// A release deletes exactly the released label and keeps every other label
/// in place: the surviving labels keep their first-press order whatever the
/// release order.
pub proof fn lemma_release_transition(s: Seq<KeyAct>, k: Seq<char>)
    ensures
        held_after(s.push(KeyAct::Release(k))) == held_after(s).remove_value(k),
{
    assert(s.push(KeyAct::Release(k)).drop_last() =~= s);
}

/// Deleting one label from a duplicate-free combination preserves the
/// relative order of any two other labels.
pub proof fn lemma_remove_value_keeps_order(s: Seq<Seq<char>>, k: Seq<char>, p: int, q: int)
    requires
        s.no_duplicates(),
        0 <= p < q < s.len(),
        s[p] != k,
        s[q] != k,
    ensures
        s.remove_value(k).contains(s[p]),
        s.remove_value(k).contains(s[q]),
        s.remove_value(k).index_of(s[p]) < s.remove_value(k).index_of(s[q]),
{
    lemma_remove_value_props(s, k);
    s.index_of_first_ensures(k);
    let r = s.remove_value(k);
    let (p2, q2): (int, int) = match s.index_of_first(k) {
        Option::None => (p, q),
        Option::Some(i) => {
            s.remove_ensures(i);
            assert(i != p && i != q);
            (if p < i { p } else { p - 1 }, if q < i { q } else { q - 1 })
        },
    };
    assert(0 <= p2 < q2 < r.len() && r[p2] == s[p] && r[q2] == s[q]);
    let a = r.index_of(s[p]);
    let b = r.index_of(s[q]);
    assert(0 <= a < r.len() && r[a] == s[p]);
    assert(0 <= b < r.len() && r[b] == s[q]);
    assert(a == p2 && b == q2);
}

/// One emitted capture record: a direct per-key event or a classified
/// combination event.
pub enum CaptureOutput {
    Direct(KeyEvent),
    Complex(ComplexKeyEvent),
}

/// `o` is the direct event for `key` with the given polarity and timestamp.
pub open spec fn is_direct_event(o: CaptureOutput, key: Seq<char>, pressed: bool, ts: u64) -> bool {
    match o {
        CaptureOutput::Direct(d) => {
            &&& d.key@ == key
            &&& d.pressed == pressed
            &&& d.event_type@ == "direct"@
            &&& d.timestamp == ts
        },
        _ => false,
    }
}

/// `o` is the classified event carrying `keys` under tag `tag`.
pub open spec fn is_complex_event(o: CaptureOutput, keys: Seq<Seq<char>>, tag: Seq<char>, ts: u64) -> bool {
    match o {
        CaptureOutput::Complex(c) => {
            &&& label_seq(c.keys@) == keys
            &&& c.event_type@ == tag
            &&& c.timestamp == ts
        },
        _ => false,
    }
}

/// The combination tracker: the ordered labels of the currently-held keys,
/// together with the ghost history of every transition processed so far.
pub struct ComboTracker {
    pub combo: Vec<String>,
    pub history: Ghost<Seq<KeyAct>>,
}

impl ComboTracker {
    /// The label list as a mathematical sequence.
    pub open spec fn labels(self) -> Seq<Seq<char>> {
        label_seq(self.combo@)
    }

    /// The tracker equals the fold of its own history.
    pub open spec fn wf(self) -> bool {
        self.labels() == held_after(self.history@)
    }

    pub fn new() -> (r: Self)
        ensures
            r.wf(),
            r.history@ == Seq::<KeyAct>::empty(),
            r.labels() == Seq::<Seq<char>>::empty(),
    {
        let t = ComboTracker { combo: Vec::new(), history: Ghost(Seq::empty()) };
        proof {
            assert(t.labels() =~= Seq::<Seq<char>>::empty());
        }
        t
    }

    /// Process one normalized key transition at time `now`.
    ///
    /// A new press appends the label and yields the direct press event and
    /// a classified event tagged `press` (combination was empty) or
    /// `combination`.  A repeated press of a held key is a no-op.  A
    /// release of a held key deletes the label and yields the direct
    /// release event and a classified event: tagged `combination` with the
    /// shortened list while other keys remain, or tagged `release` with the
    /// list as it stood before this final removal when the combination
    /// empties — only after that emission is the combination cleared.  A
    /// release of a key not held is a no-op.
    pub fn process_key(&mut self, key: &String, pressed: bool, now: u64) -> (out: Vec<
        CaptureOutput,
    >)
        requires
            old(self).wf(),
        ensures
            final(self).wf(),
            final(self).history@ == old(self).history@.push(
                if pressed {
                    KeyAct::Press(key@)
                } else {
                    KeyAct::Release(key@)
                },
            ),
            pressed && !old(self).labels().contains(key@) ==> {
                &&& final(self).labels() == old(self).labels().push(key@)
                &&& out@.len() == 2
                &&& is_direct_event(out@[0], key@, true, now)
                &&& is_complex_event(
                    out@[1],
                    final(self).labels(),
                    if old(self).labels().len() == 0 {
                        "press"@
                    } else {
                        "combination"@
                    },
                    now,
                )
            },
            pressed && old(self).labels().contains(key@) ==> {
                &&& final(self).combo == old(self).combo
                &&& out@.len() == 0
            },
            !pressed && old(self).labels().contains(key@) ==> {
                &&& final(self).labels() == old(self).labels().remove_value(key@)
                &&& out@.len() == 2
                &&& is_direct_event(out@[0], key@, false, now)
                &&& final(self).labels().len() > 0 ==> is_complex_event(
                    out@[1],
                    final(self).labels(),
                    "combination"@,
                    now,
                )
                &&& final(self).labels().len() == 0 ==> is_complex_event(
                    out@[1],
                    old(self).labels(),
                    "release"@,
                    now,
                )
            },
            !pressed && !old(self).labels().contains(key@) ==> {
                &&& final(self).combo == old(self).combo
                &&& out@.len() == 0
            },
    {
        proof {
            lemma_held_after_tracks_keys(self.history@);
            if pressed {
                lemma_press_transition(self.history@, key@);
            } else {
                lemma_release_transition(self.history@, key@);
                lemma_remove_value_props(held_after(self.history@), key@);
            }
            broadcast use vstd::prelude::Seq::lemma_push_map_commute;
        }
        let idx = index_of_label(&self.combo, key);
        let ghost act = if pressed {
            KeyAct::Press(key@)
        } else {
            KeyAct::Release(key@)
        };
        self.history = Ghost(self.history@.push(act));
        let mut out: Vec<CaptureOutput> = Vec::new();
        if pressed {
            if idx.is_none() {
                let was_empty = self.combo.len() == 0;
                self.combo.push(clone_string(key));
                out.push(
                    CaptureOutput::Direct(
                        KeyEvent {
                            key: clone_string(key),
                            event_type: String::from_str("direct"),
                            pressed: true,
                            timestamp: now,
                        },
                    ),
                );
                let tag = if was_empty {
                    String::from_str("press")
                } else {
                    String::from_str("combination")
                };
                let keys = clone_labels(&self.combo);
                out.push(
                    CaptureOutput::Complex(
                        ComplexKeyEvent { keys, event_type: tag, timestamp: now },
                    ),
                );
            }
        } else {
            if let Some(i) = idx {
                proof {
                    lemma_first_index_agrees(self.combo@, key@, i as int);
                }
                out.push(
                    CaptureOutput::Direct(
                        KeyEvent {
                            key: clone_string(key),
                            event_type: String::from_str("direct"),
                            pressed: false,
                            timestamp: now,
                        },
                    ),
                );
                let pre = clone_labels(&self.combo);
                self.combo.remove(i);
                proof {
                    lemma_map_values_remove(old(self).combo@, i as int);
                }
                if self.combo.len() == 0 {
                    out.push(
                        CaptureOutput::Complex(
                            ComplexKeyEvent {
                                keys: pre,
                                event_type: String::from_str("release"),
                                timestamp: now,
                            },
                        ),
                    );
                } else {
                    let keys = clone_labels(&self.combo);
                    out.push(
                        CaptureOutput::Complex(
                            ComplexKeyEvent {
                                keys,
                                event_type: String::from_str("combination"),
                                timestamp: now,
                            },
                        ),
                    );
                }
            }
        }
        out
    }
}

/// The first position whose label equals `key`, if any: `None` means the
/// key is not in the combination.
pub(crate) fn index_of_label(v: &Vec<String>, key: &String) -> (r: Option<usize>)
    ensures
        r matches Some(i) ==> 0 <= i < v@.len() && v@[i as int]@ == key@ && (forall|j: int|
            0 <= j < i ==> v@[j]@ != key@),
        r is None ==> forall|j: int| 0 <= j < v@.len() ==> v@[j]@ != key@,
        (r is Some) == v@.map_values(|s: String| s@).contains(key@),
{
    let mut j: usize = 0;
    while j < v.len()
        invariant
            0 <= j <= v@.len(),
            forall|t: int| 0 <= t < j ==> v@[t]@ != key@,
        decreases v@.len() - j,
    {
        if v[j].eq(key) {
            proof {
                assert(v@.map_values(|s: String| s@)[j as int] == key@);
            }
            return Some(j);
        }
        j += 1;
    }
    proof {
        let m = v@.map_values(|s: String| s@);
        if m.contains(key@) {
            let t = choose|t: int| 0 <= t < m.len() && m[t] == key@;
            assert(v@[t]@ != key@);
            assert(false);
        }
    }
    None
}

/// An owned copy of one label.
pub(crate) fn clone_string(s: &String) -> (r: String)
    ensures
        r@ == s@,
{
    s.clone()
}

/// An owned copy of the combination, label for label.
pub(crate) fn clone_labels(v: &Vec<String>) -> (r: Vec<String>)
    ensures
        r@.map_values(|s: String| s@) == v@.map_values(|s: String| s@),
        r@.len() == v@.len(),
{
    let r = v.clone();
    proof {
        assert forall|i: int| 0 <= i < v@.len() implies r@[i] == v@[i] by {
            assert(cloned::<String>(v@[i], r@[i]));
        }
        assert(r@ =~= v@);
    }
    r
}

/// The scan index equals the first occurrence in the label view.
pub(crate) proof fn lemma_first_index_agrees(v: Seq<String>, key: Seq<char>, i: int)
    requires
        0 <= i < v.len(),
        v[i]@ == key,
        forall|j: int| 0 <= j < i ==> v[j]@ != key,
    ensures
        v.map_values(|s: String| s@).remove_value(key) == v.map_values(|s: String| s@).remove(i),
{
    let m = v.map_values(|s: String| s@);
    m.index_of_first_ensures(key);
    assert(m[i] == key);
    match m.index_of_first(key) {
        Option::None => {
            assert(m.contains(key));
        },
        Option::Some(f) => {
            if f < i {
                assert(v[f]@ != key);
                assert(m[f] == key);
                assert(false);
            }
            if i < f {
                assert(m[i] != key);
                assert(false);
            }
        },
    }
}

/// Deleting an element commutes with taking the label view.
pub(crate) proof fn lemma_map_values_remove(v: Seq<String>, i: int)
    requires
        0 <= i < v.len(),
    ensures
        v.remove(i).map_values(|s: String| s@) == v.map_values(|s: String| s@).remove(i),
{
    v.remove_ensures(i);
    v.map_values(|s: String| s@).remove_ensures(i);
    assert(v.remove(i).map_values(|s: String| s@) =~= v.map_values(|s: String| s@).remove(i));
}

} // verus!
