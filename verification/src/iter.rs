//! The state machine that walks successive principal-phase crossings
//! across a time range, forward or in reverse.
//!
//! The astronomical search for the moment of each crossing is not part of
//! this state machine: the caller computes the phase angle at the cursor
//! and the moment of the next crossing, and each step here decides,
//! exactly and for every possible search outcome, whether to emit the
//! event and advance or to become exhausted.

use vstd::prelude::*;

verus! {

use crate::angle::close_to_quarter;
use crate::angle::spec_close_to_quarter;
use crate::angle::HALF_TURN;
use crate::angle::QUARTER_TURN;
use crate::angle::THREE_QUARTER_TURN;
use crate::calendar::MAX_DAY;
use crate::calendar::MIN_DAY;
use crate::moment::Timestamp;
use crate::phase::PrincipalPhase;

/// Principal phase iterator state: a remaining (cursor, end) bound pair
/// and a direction, or the exhausted terminal state.
#[derive(Debug, Clone)]
pub struct Iter {
    /// The remaining search bound: the cursor the next search starts from
    /// and the fixed end of the range. `None` once the walk is exhausted.
    pub bound: Option<(Timestamp, Timestamp)>,
    /// Whether the walk runs forward in time.
    pub positive: bool,
}

impl Iter {
    /// Every timestamp held by the state is a representable instant.
    pub open spec fn wf(self) -> bool {
        match self.bound {
            Some(b) => b.0.wf() && b.1.wf(),
            None => true,
        }
    }

    /// The initial state for a time range: the direction comes from the
    /// order of the endpoints, and an excluded endpoint whose phase angle
    /// sits within the boundary tolerance of a principal phase is nudged
    /// one day outward, so that floating-point noise at the boundary can
    /// neither spuriously admit nor reject a boundary event.
    pub open spec fn spec_new(
        start: Timestamp,
        start_excluded: bool,
        start_phase: int,
        end: Timestamp,
        end_excluded: bool,
        end_phase: int,
    ) -> Iter {
        let positive = start.spec_le(end);
        let s = if start_excluded && spec_close_to_quarter(start_phase) {
            start.spec_add_day(positive)
        } else {
            start
        };
        let e = if end_excluded && spec_close_to_quarter(end_phase) {
            end.spec_add_day(!positive)
        } else {
            end
        };
        Iter { bound: Some((s, e)), positive }
    }

    /// Builds the initial state for the range from `start` to `end`.
    /// `start_phase` and `end_phase` are the phase angles at the two
    /// endpoints, in fixed-point angle units; they decide the nudge of an
    /// excluded endpoint.
    pub fn new(
        start: Timestamp,
        start_excluded: bool,
        start_phase: i64,
        end: Timestamp,
        end_excluded: bool,
        end_phase: i64,
    ) -> (r: Iter)
        requires
            start.wf(),
            end.wf(),
        ensures
            r == Iter::spec_new(
                start,
                start_excluded,
                start_phase as int,
                end,
                end_excluded,
                end_phase as int,
            ),
            r.wf(),
    {
        let positive = start.le(&end);
        let s = if start_excluded && close_to_quarter(start_phase) {
            start.add_day(positive)
        } else {
            start
        };
        let e = if end_excluded && close_to_quarter(end_phase) {
            end.add_day(!positive)
        } else {
            end
        };
        Iter { bound: Some((s, e)), positive }
    }

    /// The principal phase whose crossing is searched next from phase
    /// angle `phase`: walking forward, the phase that ends the quadrant
    /// the angle lies in; walking backward, the phase that starts it.
    pub open spec fn spec_next_target(phase: int, positive: bool) -> PrincipalPhase {
        if positive {
            if phase <= QUARTER_TURN {
                PrincipalPhase::FirstQuarter
            } else if phase <= HALF_TURN {
                PrincipalPhase::FullMoon
            } else if phase <= THREE_QUARTER_TURN {
                PrincipalPhase::LastQuarter
            } else {
                PrincipalPhase::NewMoon
            }
        } else {
            if phase >= THREE_QUARTER_TURN {
                PrincipalPhase::LastQuarter
            } else if phase >= HALF_TURN {
                PrincipalPhase::FullMoon
            } else if phase >= QUARTER_TURN {
                PrincipalPhase::FirstQuarter
            } else {
                PrincipalPhase::NewMoon
            }
        }
    }

    /// The principal phase to search for next from phase angle `phase`.
    pub fn next_target(phase: i64, positive: bool) -> (r: PrincipalPhase)
        ensures
            r == Iter::spec_next_target(phase as int, positive),
    {
        if positive {
            if phase <= QUARTER_TURN {
                PrincipalPhase::FirstQuarter
            } else if phase <= HALF_TURN {
                PrincipalPhase::FullMoon
            } else if phase <= THREE_QUARTER_TURN {
                PrincipalPhase::LastQuarter
            } else {
                PrincipalPhase::NewMoon
            }
        } else {
            if phase >= THREE_QUARTER_TURN {
                PrincipalPhase::LastQuarter
            } else if phase >= HALF_TURN {
                PrincipalPhase::FullMoon
            } else if phase >= QUARTER_TURN {
                PrincipalPhase::FirstQuarter
            } else {
                PrincipalPhase::NewMoon
            }
        }
    }

    /// One decision step, given the crossing the search found for the
    /// current target (`None` when its moment is not representable): emit
    /// the event and advance the cursor one day past it when the crossing
    /// still lies within the end bound, else become exhausted. An
    /// exhausted state stays exhausted and emits nothing, whatever is
    /// handed in.
    pub open spec fn spec_step(self, target: PrincipalPhase, found: Option<Timestamp>) -> (
        Iter,
        Option<(PrincipalPhase, Timestamp)>,
    ) {
        match self.bound {
            None => (self, None),
            Some(b) => match found {
                Some(c) => if self.positive && c.spec_le(b.1) {
                    (
                        Iter { bound: Some((c.spec_add_day(true), b.1)), positive: self.positive },
                        Some((target, c)),
                    )
                } else if !self.positive && b.1.spec_le(c) {
                    (
                        Iter { bound: Some((c.spec_add_day(false), b.1)), positive: self.positive },
                        Some((target, c)),
                    )
                } else {
                    (Iter { bound: None, positive: self.positive }, None)
                },
                None => (Iter { bound: None, positive: self.positive }, None),
            },
        }
    }

    /// Performs one decision step of the walk.
    pub fn step(&mut self, target: PrincipalPhase, found: Option<Timestamp>) -> (r: Option<
        (PrincipalPhase, Timestamp),
    >)
        requires
            old(self).wf(),
            found is Some ==> found->Some_0.wf(),
        ensures
            *final(self) == (*old(self)).spec_step(target, found).0,
            r == (*old(self)).spec_step(target, found).1,
            final(self).wf(),
    {
        let (start, end) = match self.bound {
            Some(b) => b,
            None => {
                return None;
            },
        };
        if let Some(next) = found {
            if self.positive && next.le(&end) {
                self.bound = Some((next.add_day(true), end));
                return Some((target, next));
            } else if !self.positive && end.le(&next) {
                self.bound = Some((next.add_day(false), end));
                return Some((target, next));
            }
        }
        self.bound = None;
        None
    }
}

/// Principal phase iterator by day: the instant-level state machine
/// anchored to whole civil days, reporting the day of each crossing.
#[derive(Debug, Clone)]
pub struct DailyIter {
    /// The underlying instant-level iterator state.
    pub inner: Iter,
}

impl DailyIter {
    /// Every timestamp held by the state is a representable instant.
    pub open spec fn wf(self) -> bool {
        self.inner.wf()
    }

    /// The instant-level start bound for a day range: the first instant of
    /// the start day when walking forward, its last instant in reverse.
    pub open spec fn spec_anchor(day: int, down: bool) -> Timestamp {
        if down {
            Timestamp { day: day as i32, nanos: 0u64 }
        } else {
            Timestamp { day: day as i32, nanos: (crate::moment::NANOS_PER_DAY - 1) as u64 }
        }
    }

    /// Builds the initial state for the day range from `start_day` to
    /// `end_day`: the start bound is anchored to the first instant of its
    /// day and the end bound to the last instant of its day when the range
    /// runs forward, and the other way around in reverse.
    pub fn new(
        start_day: i32,
        start_excluded: bool,
        start_phase: i64,
        end_day: i32,
        end_excluded: bool,
        end_phase: i64,
    ) -> (r: DailyIter)
        requires
            MIN_DAY <= start_day <= MAX_DAY,
            MIN_DAY <= end_day <= MAX_DAY,
        ensures
            r.inner == Iter::spec_new(
                DailyIter::spec_anchor(start_day as int, start_day <= end_day),
                start_excluded,
                start_phase as int,
                DailyIter::spec_anchor(end_day as int, !(start_day <= end_day)),
                end_excluded,
                end_phase as int,
            ),
            r.wf(),
    {
        let positive = start_day <= end_day;
        let start = if positive {
            Timestamp::day_start(start_day)
        } else {
            Timestamp::day_end(start_day)
        };
        let end = if positive {
            Timestamp::day_end(end_day)
        } else {
            Timestamp::day_start(end_day)
        };
        DailyIter { inner: Iter::new(start, start_excluded, start_phase, end, end_excluded, end_phase) }
    }

    /// Performs one decision step of the walk, reporting only the calendar
    /// day of an emitted crossing.
    pub fn step(&mut self, target: PrincipalPhase, found: Option<Timestamp>) -> (r: Option<
        (PrincipalPhase, i32),
    >)
        requires
            old(self).wf(),
            found is Some ==> found->Some_0.wf(),
        ensures
            final(self).inner == (*old(self)).inner.spec_step(target, found).0,
            r == match (*old(self)).inner.spec_step(target, found).1 {
                Some(e) => Some((e.0, e.1.day)),
                None => None::<(PrincipalPhase, i32)>,
            },
            final(self).wf(),
    {
        match self.inner.step(target, found) {
            Some(e) => Some((e.0, e.1.day)),
            None => None,
        }
    }
}

/// Exhaustion: an iterator that has reached its terminal state yields the
/// terminal signal on every further step and never leaves that state,
/// whatever crossings are handed in.
pub proof fn lemma_iter_fused(it: Iter, target: PrincipalPhase, found: Option<Timestamp>)
    requires
        it.bound is None,
    ensures
        it.spec_step(target, found).0 == it,
        it.spec_step(target, found).1 is None,
{
}

/// Forward progress: when a step emits an event, the new cursor lies one
/// day beyond the event in the direction of the walk, strictly so as long
/// as the event is not the extreme representable instant.
pub proof fn lemma_step_advances(it: Iter, target: PrincipalPhase, found: Option<Timestamp>)
    requires
        it.wf(),
        found is Some ==> found->Some_0.wf(),
        it.spec_step(target, found).1 is Some,
    ensures
        ({
            let next_state = it.spec_step(target, found).0;
            let c = it.spec_step(target, found).1->Some_0.1;
            &&& next_state.bound is Some
            &&& next_state.bound->Some_0.0 == c.spec_add_day(it.positive)
            &&& it.positive && c.day < MAX_DAY ==> c.spec_lt(next_state.bound->Some_0.0)
            &&& !it.positive && c.day > MIN_DAY ==> next_state.bound->Some_0.0.spec_lt(c)
        }),
{
}

/// Successive events strictly advance in time: when a step emits an event
/// and the next search honors its window (it never returns a crossing on
/// the cursor's near side), the next emitted event lies strictly beyond
/// the first in the direction of the walk, as long as the first event is
/// not the extreme representable instant.
pub proof fn lemma_events_strictly_ordered(
    it: Iter,
    t1: PrincipalPhase,
    c1: Timestamp,
    t2: PrincipalPhase,
    c2: Timestamp,
)
    requires
        it.wf(),
        c1.wf(),
        it.spec_step(t1, Some(c1)).1 is Some,
        ({
            let cursor = it.spec_step(t1, Some(c1)).0.bound->Some_0.0;
            if it.positive {
                cursor.spec_le(c2)
            } else {
                c2.spec_le(cursor)
            }
        }),
        it.positive ==> c1.day < MAX_DAY,
        !it.positive ==> c1.day > MIN_DAY,
    ensures
        it.positive ==> c1.spec_lt(c2),
        !it.positive ==> c2.spec_lt(c1),
{
    lemma_step_advances(it, t1, Some(c1));
}

/// Phase cycle, forward: after an event at principal phase `p` the walk
/// resumes at a moment whose phase angle lies strictly inside the quadrant
/// that follows `p`, and from any such angle the next forward target is
/// exactly `p`'s successor in the cycle new moon, first quarter, full
/// moon, last quarter.
pub proof fn lemma_target_cycle_forward(p: PrincipalPhase, phase: int)
    requires
        p.spec_angle() < phase < p.spec_angle() + QUARTER_TURN,
    ensures
        Iter::spec_next_target(phase, true) == p.spec_successor(),
{
}

/// Phase cycle, reverse: from a phase angle strictly inside the quadrant
/// that follows principal phase `p`, the next backward target is `p`
/// itself, so the reverse walk emits the same phases in the opposite
/// order.
pub proof fn lemma_target_cycle_reverse(p: PrincipalPhase, phase: int)
    requires
        p.spec_angle() < phase < p.spec_angle() + QUARTER_TURN,
    ensures
        Iter::spec_next_target(phase, false) == p,
{
}

} // verus!
