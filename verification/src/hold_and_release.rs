//! The hold-sequence tracker.
//!
//! A [`HoldTracker`] watches the same normalized key transitions as the
//! combination tracker, but reports only completed spans: from the pressed
//! set's transition empty-to-nonempty until its next return to empty.  It
//! records every distinct key that joined during the span — keys released
//! before the span ends stay recorded — together with the span's start and
//! end timestamps.  The release that empties the pressed set yields the
//! sequence event and resets the span.

use vstd::prelude::*;
use vstd::string::StringExecFns;
use crate::complex::{
    clone_labels, clone_string, held_after, index_of_label, label_seq, lemma_first_index_agrees,
    lemma_held_after_tracks_keys, lemma_map_values_remove, lemma_press_transition,
    lemma_release_transition, lemma_remove_value_props, KeyAct,
};
use crate::models::KeySequenceEvent;

verus! {

/// The hold-sequence tracker: the currently-held labels, the labels that
/// participated in the current span, the span's start time, and the ghost
/// history of every transition processed so far.
pub struct HoldTracker {
    pub pressed: Vec<String>,
    pub sequence: Vec<String>,
    pub start_time: Option<u64>,
    pub history: Ghost<Seq<KeyAct>>,
}

/// The labels recorded for the current span after replaying `s`: every
/// distinct key pressed since the pressed set last became non-empty.  A key
/// released before the span ends stays recorded; the release that empties
/// the pressed set resets the record.
pub open spec fn span_participants(s: Seq<KeyAct>) -> Seq<Seq<char>>
    decreases s.len(),
{
    if s.len() == 0 {
        Seq::empty()
    } else {
        let parts = span_participants(s.drop_last());
        match s.last() {
            KeyAct::Press(k) => if held_after(s.drop_last()).contains(k) || parts.contains(k) {
                parts
            } else {
                parts.push(k)
            },
            KeyAct::Release(k) => if held_after(s).len() == 0 {
                Seq::empty()
            } else {
                parts
            },
        }
    }
}

/// The event that closes a span: every participating label, the two
/// timestamps and their distance, tagged `key_sequence`.
pub open spec fn is_sequence_event(
    ev: KeySequenceEvent,
    keys: Seq<Seq<char>>,
    start: u64,
    end: u64,
) -> bool {
    &&& label_seq(ev.keys@) == keys
    &&& ev.start_time == start
    &&& ev.end_time == end
    &&& ev.duration_ms == end - start
    &&& ev.event_type@ == "key_sequence"@
}

impl HoldTracker {
    /// The held labels as a mathematical sequence.
    pub open spec fn held(self) -> Seq<Seq<char>> {
        label_seq(self.pressed@)
    }

    /// The labels recorded for the current span.
    pub open spec fn recorded(self) -> Seq<Seq<char>> {
        label_seq(self.sequence@)
    }

    /// The held labels and the recorded participants equal the folds of the
    /// history, and a span has a start time exactly while it is open — so
    /// the first press of a span always stamps a fresh start.
    pub open spec fn wf(self) -> bool {
        &&& self.held() == held_after(self.history@)
        &&& self.recorded() == span_participants(self.history@)
        &&& (self.held().len() > 0 <==> self.start_time is Some)
        &&& self.held().len() == 0 ==> self.recorded().len() == 0
    }

    pub fn new() -> (r: Self)
        ensures
            r.wf(),
            r.history@ == Seq::<KeyAct>::empty(),
            r.held() == Seq::<Seq<char>>::empty(),
            r.recorded() == Seq::<Seq<char>>::empty(),
            r.start_time is None,
    {
        let t = HoldTracker {
            pressed: Vec::new(),
            sequence: Vec::new(),
            start_time: None,
            history: Ghost(Seq::empty()),
        };
        proof {
            assert(t.held() =~= Seq::<Seq<char>>::empty());
            assert(t.recorded() =~= Seq::<Seq<char>>::empty());
        }
        t
    }

    /// Process one normalized key transition at time `now`.
    ///
    /// The first press of a span stamps its start time; every new key is
    /// recorded once, even if released before the span ends.  The release
    /// that empties the pressed set yields the sequence event with the full
    /// recorded list and `duration = end - start`, then resets the span.
    /// Repeated presses and releases of keys not held are no-ops.
    pub fn process_key(&mut self, key: &String, pressed: bool, now: u64) -> (out: Option<
        KeySequenceEvent,
    >)
        requires
            old(self).wf(),
            (!pressed && old(self).held().contains(key@) && old(self).held().len() == 1) ==> (old(
                self,
            ).start_time matches Some(st) ==> now >= st),
        ensures
            final(self).wf(),
            final(self).history@ == old(self).history@.push(
                if pressed {
                    KeyAct::Press(key@)
                } else {
                    KeyAct::Release(key@)
                },
            ),
            pressed && !old(self).held().contains(key@) ==> {
                &&& final(self).held() == old(self).held().push(key@)
                &&& final(self).start_time == (if old(self).start_time is Some {
                    old(self).start_time
                } else {
                    Some(now)
                })
                &&& final(self).recorded() == (if old(self).recorded().contains(key@) {
                    old(self).recorded()
                } else {
                    old(self).recorded().push(key@)
                })
                &&& out is None
            },
            pressed && old(self).held().contains(key@) ==> {
                &&& final(self).pressed == old(self).pressed
                &&& final(self).sequence == old(self).sequence
                &&& final(self).start_time == old(self).start_time
                &&& out is None
            },
            !pressed && !old(self).held().contains(key@) ==> {
                &&& final(self).pressed == old(self).pressed
                &&& final(self).sequence == old(self).sequence
                &&& final(self).start_time == old(self).start_time
                &&& out is None
            },
            !pressed && old(self).held().contains(key@) && old(self).held().len() > 1 ==> {
                &&& final(self).held() == old(self).held().remove_value(key@)
                &&& final(self).sequence == old(self).sequence
                &&& final(self).start_time == old(self).start_time
                &&& out is None
            },
            !pressed && old(self).held().contains(key@) && old(self).held().len() == 1 ==> {
                &&& final(self).held().len() == 0
                &&& final(self).recorded().len() == 0
                &&& final(self).start_time is None
                &&& out matches Some(ev) && old(self).start_time matches Some(st)
                    && is_sequence_event(ev, old(self).recorded(), st, now)
            },
    {
        proof {
            lemma_held_after_tracks_keys(self.history@);
            if pressed {
                lemma_press_transition(self.history@, key@);
            } else {
                lemma_release_transition(self.history@, key@);
                lemma_remove_value_props(held_after(self.history@), key@);
            }
            broadcast use vstd::prelude::Seq::lemma_push_map_commute;
        }
        let idx = index_of_label(&self.pressed, key);
        let ghost act = if pressed {
            KeyAct::Press(key@)
        } else {
            KeyAct::Release(key@)
        };
        self.history = Ghost(self.history@.push(act));
        proof {
            assert(self.history@.drop_last() =~= old(self).history@);
        }
        if pressed {
            if idx.is_none() {
                if self.start_time.is_none() {
                    self.start_time = Some(now);
                }
                self.pressed.push(clone_string(key));
                let sidx = index_of_label(&self.sequence, key);
                if sidx.is_none() {
                    self.sequence.push(clone_string(key));
                }
            }
            None
        } else {
            match idx {
                None => None,
                Some(i) => {
                    proof {
                        lemma_first_index_agrees(self.pressed@, key@, i as int);
                        lemma_map_values_remove(self.pressed@, i as int);
                    }
                    self.pressed.remove(i);
                    if self.pressed.len() == 0 {
                        let st = match self.start_time {
                            Some(st) => st,
                            None => {
                                proof {
                                    assert(false);
                                }
                                0
                            },
                        };
                        let keys = clone_labels(&self.sequence);
                        self.sequence.clear();
                        self.start_time = None;
                        proof {
                            assert(self.recorded() =~= Seq::<Seq<char>>::empty());
                        }
                        Some(
                            KeySequenceEvent {
                                keys,
                                start_time: st,
                                end_time: now,
                                duration_ms: now - st,
                                event_type: String::from_str("key_sequence"),
                            },
                        )
                    } else {
                        None
                    }
                },
            }
        }
    }
}

} // verus!
