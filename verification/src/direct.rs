//! Event normalization for the capture path.
//!
//! An event-driven source hands over one transition at a time
//! ([`direct_key_event`] stamps it); a polling source hands over two
//! consecutive snapshots of the held keys, and [`snapshot_key_events`]
//! synthesizes exactly one transition per changed key: all newly pressed
//! keys first, then all newly released ones, each group in its snapshot's
//! order.  An unchanged snapshot yields no events.

use vstd::prelude::*;
use vstd::string::StringExecFns;
use crate::complex::{clone_string, index_of_label, label_seq};
use crate::models::KeyEvent;

verus! {

/// The direct event for one key transition: the label, the polarity and the
/// observation time, tagged `direct`.
pub fn direct_key_event(key: String, pressed: bool, timestamp: u64) -> (r: KeyEvent)
    ensures
        r.key == key,
        r.pressed == pressed,
        r.event_type@ == "direct"@,
        r.timestamp == timestamp,
{
    KeyEvent { key, event_type: String::from_str("direct"), pressed, timestamp }
}

/// The keys of the new snapshot that the old one does not hold, in the new
/// snapshot's order.
pub open spec fn newly_pressed(prev: Seq<String>, curr: Seq<String>) -> Seq<Seq<char>> {
    label_seq(curr).filter(|k: Seq<char>| !label_seq(prev).contains(k))
}

/// The keys of the old snapshot that the new one no longer holds, in the
/// old snapshot's order.
pub open spec fn newly_released(prev: Seq<String>, curr: Seq<String>) -> Seq<Seq<char>> {
    label_seq(prev).filter(|k: Seq<char>| !label_seq(curr).contains(k))
}

/// The transitions between two consecutive snapshots of the held keys: one
/// press per key held now but not before, then one release per key held
/// before but not now.
pub fn snapshot_key_events(prev: &Vec<String>, curr: &Vec<String>) -> (out: Vec<(String, bool)>)
    ensures
        out@.len() == newly_pressed(prev@, curr@).len() + newly_released(prev@, curr@).len(),
        forall|t: int|
            0 <= t < newly_pressed(prev@, curr@).len() ==> (#[trigger] out@[t]).0@
                == newly_pressed(prev@, curr@)[t] && out@[t].1 == true,
        forall|t: int|
            newly_pressed(prev@, curr@).len() <= t < out@.len() ==> (#[trigger] out@[t]).0@
                == newly_released(prev@, curr@)[t - newly_pressed(prev@, curr@).len()]
                && out@[t].1 == false,
{
    proof {
        broadcast use vstd::prelude::Seq::lemma_filter_push;
        broadcast use vstd::prelude::Seq::lemma_take_succ_push;
        broadcast use vstd::prelude::Seq::lemma_push_map_commute;
        reveal(Seq::filter);
    }
    let mut out: Vec<(String, bool)> = Vec::new();
    let ghost presses = newly_pressed(prev@, curr@);
    let ghost releases = newly_released(prev@, curr@);
    proof {
        assert(curr@.take(0) =~= Seq::<String>::empty());
        assert(label_seq(Seq::<String>::empty()) =~= Seq::<Seq<char>>::empty());
    }
    let mut i: usize = 0;
    while i < curr.len()
        invariant
            0 <= i <= curr@.len(),
            out@.len() == newly_pressed(prev@, curr@.take(i as int)).len(),
            forall|t: int|
                0 <= t < out@.len() ==> (#[trigger] out@[t]).0@ == newly_pressed(
                    prev@,
                    curr@.take(i as int),
                )[t] && out@[t].1 == true,
        decreases curr@.len() - i,
    {
        proof {
            broadcast use vstd::prelude::Seq::lemma_filter_push;
            broadcast use vstd::prelude::Seq::lemma_take_succ_push;
            broadcast use vstd::prelude::Seq::lemma_push_map_commute;

            assert(curr@.take(i + 1) =~= curr@.take(i as int).push(curr@[i as int]));
            assert(label_seq(curr@.take(i as int).push(curr@[i as int])) == label_seq(
                curr@.take(i as int),
            ).push(curr@[i as int]@));
        }
        if index_of_label(prev, &curr[i]).is_none() {
            out.push((clone_string(&curr[i]), true));
        }
        i += 1;
    }
    proof {
        assert(curr@.take(curr@.len() as int) =~= curr@);
    }
    let ghost press_count = out@.len() as int;
    proof {
        assert(prev@.take(0) =~= Seq::<String>::empty());
        assert(label_seq(Seq::<String>::empty()) =~= Seq::<Seq<char>>::empty());
    }
    let mut j: usize = 0;
    while j < prev.len()
        invariant
            0 <= j <= prev@.len(),
            press_count == newly_pressed(prev@, curr@).len(),
            forall|t: int|
                0 <= t < press_count ==> (#[trigger] out@[t]).0@ == newly_pressed(prev@, curr@)[t]
                    && out@[t].1 == true,
            out@.len() == press_count + newly_released(prev@.take(j as int), curr@).len(),
            forall|t: int|
                press_count <= t < out@.len() ==> (#[trigger] out@[t]).0@ == newly_released(
                    prev@.take(j as int),
                    curr@,
                )[t - press_count] && out@[t].1 == false,
        decreases prev@.len() - j,
    {
        proof {
            broadcast use vstd::prelude::Seq::lemma_filter_push;
            broadcast use vstd::prelude::Seq::lemma_take_succ_push;
            broadcast use vstd::prelude::Seq::lemma_push_map_commute;

            assert(prev@.take(j + 1) =~= prev@.take(j as int).push(prev@[j as int]));
            assert(label_seq(prev@.take(j as int).push(prev@[j as int])) == label_seq(
                prev@.take(j as int),
            ).push(prev@[j as int]@));
        }
        if index_of_label(curr, &prev[j]).is_none() {
            out.push((clone_string(&prev[j]), false));
        }
        j += 1;
    }
    proof {
        assert(prev@.take(prev@.len() as int) =~= prev@);
    }
    out
}

} // verus!
