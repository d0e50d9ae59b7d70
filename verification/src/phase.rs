//! The eight named phases of the Moon, the four principal phases, and the
//! classification of a day's phase-angle span into one of them.

use vstd::prelude::*;

verus! {

use crate::angle::FULL_TURN;
use crate::angle::HALF_TURN;
use crate::angle::QUARTER_TURN;
use crate::angle::THREE_QUARTER_TURN;

/// The eight principal and intermediate phases of the Moon.
#[derive(Debug, Clone, Copy, PartialEq, Eq, Structural, Hash)]
pub enum Phase {
    /// The Moon appears completely dark.
    NewMoon,
    /// The Moon is less than half visible after the new moon and before the
    /// full moon.
    WaxingCrescent,
    /// The Moon is half visible after the new moon and before the full
    /// moon.
    FirstQuarter,
    /// The Moon is more than half visible after the new moon and before the
    /// full moon.
    WaxingGibbous,
    /// The Moon is fully visible.
    FullMoon,
    /// The Moon is more than half visible after the full moon and before
    /// the new moon.
    WaningGibbous,
    /// The Moon is half visible after the full moon and before the new
    /// moon.
    LastQuarter,
    /// The Moon is less than half visible after the full moon and before
    /// the new moon.
    WaningCrescent,
}

impl Phase {
    /// The Unicode emoji that depicts the phase.
    pub open spec fn spec_emoji(self) -> char {
        match self {
            Phase::NewMoon => '\u{1f311}',
            Phase::WaxingCrescent => '\u{1f312}',
            Phase::FirstQuarter => '\u{1f313}',
            Phase::WaxingGibbous => '\u{1f314}',
            Phase::FullMoon => '\u{1f315}',
            Phase::WaningGibbous => '\u{1f316}',
            Phase::LastQuarter => '\u{1f317}',
            Phase::WaningCrescent => '\u{1f318}',
        }
    }

    /// Returns the Unicode emoji representation of the moon phase.
    pub fn as_emoji(self) -> (r: char)
        ensures
            r == self.spec_emoji(),
    {
        match self {
            Phase::NewMoon => '\u{1f311}',
            Phase::WaxingCrescent => '\u{1f312}',
            Phase::FirstQuarter => '\u{1f313}',
            Phase::WaxingGibbous => '\u{1f314}',
            Phase::FullMoon => '\u{1f315}',
            Phase::WaningGibbous => '\u{1f316}',
            Phase::LastQuarter => '\u{1f317}',
            Phase::WaningCrescent => '\u{1f318}',
        }
    }

    /// The eight moon phases in their waxing-to-waning order.
    pub fn iter() -> (r: Vec<Phase>)
        ensures
            r@ == seq![
                Phase::NewMoon,
                Phase::WaxingCrescent,
                Phase::FirstQuarter,
                Phase::WaxingGibbous,
                Phase::FullMoon,
                Phase::WaningGibbous,
                Phase::LastQuarter,
                Phase::WaningCrescent,
            ],
    {
        let mut v: Vec<Phase> = Vec::new();
        v.push(Phase::NewMoon);
        v.push(Phase::WaxingCrescent);
        v.push(Phase::FirstQuarter);
        v.push(Phase::WaxingGibbous);
        v.push(Phase::FullMoon);
        v.push(Phase::WaningGibbous);
        v.push(Phase::LastQuarter);
        v.push(Phase::WaningCrescent);
        proof {
            assert(v@ =~= seq![
                Phase::NewMoon,
                Phase::WaxingCrescent,
                Phase::FirstQuarter,
                Phase::WaxingGibbous,
                Phase::FullMoon,
                Phase::WaningGibbous,
                Phase::LastQuarter,
                Phase::WaningCrescent,
            ]);
        }
        v
    }

    /// Whether the phase is one of the four principal phases.
    pub fn is_principal(self) -> (r: bool)
        ensures
            r == (self == Phase::NewMoon || self == Phase::FirstQuarter || self == Phase::FullMoon
                || self == Phase::LastQuarter),
    {
        match self {
            Phase::NewMoon | Phase::FirstQuarter | Phase::FullMoon | Phase::LastQuarter => true,
            _ => false,
        }
    }

    /// The phase of a one-day span of phase angles: the principal phase
    /// whose angle the span crosses, or the intermediate phase of the
    /// quadrant the span starts in. The end angle is rotated a full turn
    /// forward when it is numerically below the start, modeling forward
    /// progress through the wraparound.
    pub open spec fn spec_from_phase_range(start: int, end: int) -> Phase {
        let e = if end < start {
            end + FULL_TURN
        } else {
            end
        };
        if (start <= 0 && 0 < e) || (start <= FULL_TURN && FULL_TURN < e) {
            Phase::NewMoon
        } else if start <= QUARTER_TURN && QUARTER_TURN < e {
            Phase::FirstQuarter
        } else if start <= HALF_TURN && HALF_TURN < e {
            Phase::FullMoon
        } else if start <= THREE_QUARTER_TURN && THREE_QUARTER_TURN < e {
            Phase::LastQuarter
        } else if start < QUARTER_TURN {
            Phase::WaxingCrescent
        } else if start < HALF_TURN {
            Phase::WaxingGibbous
        } else if start < THREE_QUARTER_TURN {
            Phase::WaningGibbous
        } else {
            Phase::WaningCrescent
        }
    }

    /// Classifies the phase-angle span of one day, from the angle at the
    /// day's start to the angle at the next day's start.
    pub fn from_phase_range(start: i64, end: i64) -> (r: Phase)
        requires
            0 <= start < FULL_TURN,
            0 <= end < FULL_TURN,
        ensures
            r == Phase::spec_from_phase_range(start as int, end as int),
    {
        let end = if end < start {
            end + FULL_TURN
        } else {
            end
        };
        if (start <= 0 && 0 < end) || (start <= FULL_TURN && FULL_TURN < end) {
            Phase::NewMoon
        } else if start <= QUARTER_TURN && QUARTER_TURN < end {
            Phase::FirstQuarter
        } else if start <= HALF_TURN && HALF_TURN < end {
            Phase::FullMoon
        } else if start <= THREE_QUARTER_TURN && THREE_QUARTER_TURN < end {
            Phase::LastQuarter
        } else if start < QUARTER_TURN {
            Phase::WaxingCrescent
        } else if start < HALF_TURN {
            Phase::WaxingGibbous
        } else if start < THREE_QUARTER_TURN {
            Phase::WaningGibbous
        } else {
            Phase::WaningCrescent
        }
    }
}

/// The four principal phases of the Moon.
#[derive(Debug, Clone, Copy, PartialEq, Eq, Structural, Hash)]
pub enum PrincipalPhase {
    /// The Moon appears completely dark.
    NewMoon,
    /// The Moon is half visible after the new moon and before the full
    /// moon.
    FirstQuarter,
    /// The Moon is fully visible.
    FullMoon,
    /// The Moon is half visible after the full moon and before the new
    /// moon.
    LastQuarter,
}

impl PrincipalPhase {
    /// The same phase among the eight named phases.
    pub open spec fn spec_as_phase(self) -> Phase {
        match self {
            PrincipalPhase::NewMoon => Phase::NewMoon,
            PrincipalPhase::FirstQuarter => Phase::FirstQuarter,
            PrincipalPhase::FullMoon => Phase::FullMoon,
            PrincipalPhase::LastQuarter => Phase::LastQuarter,
        }
    }

    /// The phase angle at which this principal phase occurs.
    pub open spec fn spec_angle(self) -> int {
        match self {
            PrincipalPhase::NewMoon => 0int,
            PrincipalPhase::FirstQuarter => QUARTER_TURN as int,
            PrincipalPhase::FullMoon => HALF_TURN as int,
            PrincipalPhase::LastQuarter => THREE_QUARTER_TURN as int,
        }
    }

    /// The principal phase that follows this one in the lunar cycle.
    pub open spec fn spec_successor(self) -> PrincipalPhase {
        match self {
            PrincipalPhase::NewMoon => PrincipalPhase::FirstQuarter,
            PrincipalPhase::FirstQuarter => PrincipalPhase::FullMoon,
            PrincipalPhase::FullMoon => PrincipalPhase::LastQuarter,
            PrincipalPhase::LastQuarter => PrincipalPhase::NewMoon,
        }
    }

    /// Returns the Unicode emoji representation of the moon phase.
    pub fn as_emoji(self) -> (r: char)
        ensures
            r == self.spec_as_phase().spec_emoji(),
    {
        Phase::from(self).as_emoji()
    }

    /// The four principal moon phases in their cyclic order.
    pub fn iter() -> (r: Vec<PrincipalPhase>)
        ensures
            r@ == seq![
                PrincipalPhase::NewMoon,
                PrincipalPhase::FirstQuarter,
                PrincipalPhase::FullMoon,
                PrincipalPhase::LastQuarter,
            ],
    {
        let mut v: Vec<PrincipalPhase> = Vec::new();
        v.push(PrincipalPhase::NewMoon);
        v.push(PrincipalPhase::FirstQuarter);
        v.push(PrincipalPhase::FullMoon);
        v.push(PrincipalPhase::LastQuarter);
        proof {
            assert(v@ =~= seq![
                PrincipalPhase::NewMoon,
                PrincipalPhase::FirstQuarter,
                PrincipalPhase::FullMoon,
                PrincipalPhase::LastQuarter,
            ]);
        }
        v
    }

    /// The phase angle, in fixed-point angle units, at which this
    /// principal phase occurs.
    pub fn as_angle(self) -> (r: i64)
        ensures
            r == self.spec_angle(),
    {
        match self {
            PrincipalPhase::NewMoon => 0,
            PrincipalPhase::FirstQuarter => QUARTER_TURN,
            PrincipalPhase::FullMoon => HALF_TURN,
            PrincipalPhase::LastQuarter => THREE_QUARTER_TURN,
        }
    }
}

impl core::convert::From<PrincipalPhase> for Phase {
    /// The identical phase among the eight named phases.
    fn from(phase: PrincipalPhase) -> (r: Phase) {
        match phase {
            PrincipalPhase::NewMoon => Phase::NewMoon,
            PrincipalPhase::FirstQuarter => Phase::FirstQuarter,
            PrincipalPhase::FullMoon => Phase::FullMoon,
            PrincipalPhase::LastQuarter => Phase::LastQuarter,
        }
    }
}

impl vstd::std_specs::convert::FromSpecImpl<PrincipalPhase> for Phase {
    open spec fn obeys_from_spec() -> bool {
        true
    }

    open spec fn from_spec(phase: PrincipalPhase) -> Phase {
        phase.spec_as_phase()
    }
}

} // verus!
