//! Animated pointer motion and scrolling.
//!
//! An animation is driven by a caller that samples it at successive elapsed
//! times and performs the returned device commands.  A [`MoveAnimation`]
//! yields absolute positions along the eased trajectory; a
//! [`ScrollAnimation`] yields incremental deltas and tracks the cumulative
//! amount already emitted.  Both end with a mandatory corrective step
//! (`finish`) whose contract guarantees exact convergence on the target:
//! for a scroll, the deltas handed out over the whole run, corrective step
//! included, sum to exactly the requested total, whatever elapsed times
//! were sampled.

use vstd::prelude::*;
use crate::easing::{ease, eased_at, frac_of, Easing};

verus! {

/// The sum of the first components of a sequence of deltas.
pub open spec fn sum_x(s: Seq<(int, int)>) -> int
    decreases s.len(),
{
    if s.len() == 0 {
        0
    } else {
        sum_x(s.drop_last()) + s.last().0
    }
}

/// The sum of the second components of a sequence of deltas.
pub open spec fn sum_y(s: Seq<(int, int)>) -> int
    decreases s.len(),
{
    if s.len() == 0 {
        0
    } else {
        sum_y(s.drop_last()) + s.last().1
    }
}

proof fn lemma_sum_push(s: Seq<(int, int)>, p: (int, int))
    ensures
        sum_x(s.push(p)) == sum_x(s) + p.0,
        sum_y(s.push(p)) == sum_y(s) + p.1,
{
    assert(s.push(p).drop_last() =~= s);
}

/// `v` lies between `0` and the signed total `t`.
pub open spec fn within_total(t: int, v: int) -> bool {
    if t >= 0 {
        0 <= v <= t
    } else {
        t <= v <= 0
    }
}

/// An animated absolute pointer move: the trajectory from a start position
/// to a target position under an easing curve.
pub struct MoveAnimation {
    pub start_x: i32,
    pub start_y: i32,
    pub target_x: i32,
    pub target_y: i32,
    pub duration_ms: u64,
    pub easing: Easing,
}

impl MoveAnimation {
    /// A trajectory is meaningful only over a positive duration; the
    /// instant case emits a single absolute command without an animation.
    pub open spec fn wf(self) -> bool {
        self.duration_ms > 0
    }

    pub fn new(
        start_x: i32,
        start_y: i32,
        target_x: i32,
        target_y: i32,
        duration_ms: u64,
        easing: Easing,
    ) -> (r: Self)
        requires
            duration_ms > 0,
        ensures
            r == (MoveAnimation {
                start_x,
                start_y,
                target_x,
                target_y,
                duration_ms,
                easing,
            }),
            r.wf(),
    {
        MoveAnimation { start_x, start_y, target_x, target_y, duration_ms, easing }
    }

    /// The eased absolute position at `elapsed` milliseconds, or `None`
    /// once the duration is over and the corrective step is due.  Every
    /// sample within the duration yields a position, even one that has not
    /// visibly changed.
    pub fn sample(&self, elapsed: u64) -> (r: Option<(i32, i32)>)
        requires
            self.wf(),
        ensures
            (elapsed >= self.duration_ms) == (r is None),
            r matches Some(p) ==> {
                &&& p.0 as int == eased_at(
                    self.easing,
                    frac_of(elapsed as int, self.duration_ms as int),
                    self.start_x as int,
                    self.target_x as int - self.start_x as int,
                )
                &&& p.1 as int == eased_at(
                    self.easing,
                    frac_of(elapsed as int, self.duration_ms as int),
                    self.start_y as int,
                    self.target_y as int - self.start_y as int,
                )
            },
    {
        if elapsed >= self.duration_ms {
            None
        } else {
            let x = ease(self.easing, elapsed, self.duration_ms, self.start_x, self.target_x);
            let y = ease(self.easing, elapsed, self.duration_ms, self.start_y, self.target_y);
            Some((x, y))
        }
    }

    /// The mandatory corrective step: the final command always carries the
    /// exact target position, compensating any rounding along the way.
    pub fn finish(&self) -> (r: (i32, i32))
        ensures
            r == (self.target_x, self.target_y),
    {
        (self.target_x, self.target_y)
    }
}

/// An animated relative scroll: the requested totals, the easing, and the
/// cumulative amount already handed out.  The ghost `deltas` field records
/// every delta emitted so far.
pub struct ScrollAnimation {
    pub target_x: i32,
    pub target_y: i32,
    pub duration_ms: u64,
    pub easing: Easing,
    pub emitted_x: i64,
    pub emitted_y: i64,
    pub deltas: Ghost<Seq<(int, int)>>,
}

impl ScrollAnimation {
    /// The cumulative counters agree with the recorded deltas and never
    /// leave the interval between zero and the requested total.  A total of
    /// exactly `i32::MIN` is excluded: its opposite does not fit the delta
    /// type.
    pub open spec fn wf(self) -> bool {
        &&& self.duration_ms > 0
        &&& self.target_x > i32::MIN
        &&& self.target_y > i32::MIN
        &&& self.emitted_x as int == sum_x(self.deltas@)
        &&& self.emitted_y as int == sum_y(self.deltas@)
        &&& within_total(self.target_x as int, self.emitted_x as int)
        &&& within_total(self.target_y as int, self.emitted_y as int)
    }

    pub fn new(target_x: i32, target_y: i32, duration_ms: u64, easing: Easing) -> (r: Self)
        requires
            duration_ms > 0,
            target_x > i32::MIN,
            target_y > i32::MIN,
        ensures
            r.wf(),
            r.target_x == target_x,
            r.target_y == target_y,
            r.duration_ms == duration_ms,
            r.easing == easing,
            r.emitted_x == 0,
            r.emitted_y == 0,
            r.deltas@ == Seq::<(int, int)>::empty(),
    {
        ScrollAnimation {
            target_x,
            target_y,
            duration_ms,
            easing,
            emitted_x: 0,
            emitted_y: 0,
            deltas: Ghost(Seq::empty()),
        }
    }

    /// One sampling step: the deltas that bring the cumulative emitted
    /// scroll to the eased value at `elapsed`, or `None` once the duration
    /// is over and the corrective step is due.  A zero component stands for
    /// no command on that axis.
    pub fn step(&mut self, elapsed: u64) -> (r: Option<(i32, i32)>)
        requires
            old(self).wf(),
        ensures
            final(self).wf(),
            final(self).target_x == old(self).target_x,
            final(self).target_y == old(self).target_y,
            final(self).duration_ms == old(self).duration_ms,
            final(self).easing == old(self).easing,
            (elapsed >= old(self).duration_ms) == (r is None),
            r is None ==> *final(self) == *old(self),
            r matches Some(d) ==> {
                &&& final(self).emitted_x as int == eased_at(
                    old(self).easing,
                    frac_of(elapsed as int, old(self).duration_ms as int),
                    0,
                    old(self).target_x as int,
                )
                &&& final(self).emitted_y as int == eased_at(
                    old(self).easing,
                    frac_of(elapsed as int, old(self).duration_ms as int),
                    0,
                    old(self).target_y as int,
                )
                &&& d.0 as int == final(self).emitted_x - old(self).emitted_x
                &&& d.1 as int == final(self).emitted_y - old(self).emitted_y
                &&& final(self).deltas@ == old(self).deltas@.push((d.0 as int, d.1 as int))
            },
    {
        if elapsed >= self.duration_ms {
            None
        } else {
            let ex = ease(self.easing, elapsed, self.duration_ms, 0, self.target_x);
            let ey = ease(self.easing, elapsed, self.duration_ms, 0, self.target_y);
            let dx = ex as i64 - self.emitted_x;
            let dy = ey as i64 - self.emitted_y;
            proof {
                lemma_sum_push(self.deltas@, (dx as int, dy as int));
            }
            self.emitted_x = ex as i64;
            self.emitted_y = ey as i64;
            self.deltas = Ghost(self.deltas@.push((dx as int, dy as int)));
            Some((dx as i32, dy as i32))
        }
    }

    /// The mandatory corrective step: the remaining difference to the
    /// requested totals.  Afterwards everything handed out, this step
    /// included, sums exactly to the requested totals — the run is free of
    /// rounding drift.
    pub fn finish(&mut self) -> (r: (i32, i32))
        requires
            old(self).wf(),
        ensures
            final(self).wf(),
            r.0 as int == old(self).target_x as int - old(self).emitted_x as int,
            r.1 as int == old(self).target_y as int - old(self).emitted_y as int,
            final(self).emitted_x == old(self).target_x as int,
            final(self).emitted_y == old(self).target_y as int,
            final(self).deltas@ == old(self).deltas@.push((r.0 as int, r.1 as int)),
            sum_x(final(self).deltas@) == old(self).target_x as int,
            sum_y(final(self).deltas@) == old(self).target_y as int,
            final(self).target_x == old(self).target_x,
            final(self).target_y == old(self).target_y,
    {
        let dx = self.target_x as i64 - self.emitted_x;
        let dy = self.target_y as i64 - self.emitted_y;
        proof {
            lemma_sum_push(self.deltas@, (dx as int, dy as int));
        }
        self.emitted_x = self.target_x as i64;
        self.emitted_y = self.target_y as i64;
        self.deltas = Ghost(self.deltas@.push((dx as int, dy as int)));
        (dx as i32, dy as i32)
    }
}

} // verus!
