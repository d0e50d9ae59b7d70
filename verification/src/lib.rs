//! Lunar phase calculations.
//!
//! The verified core of a lunar-phase library: proleptic-Gregorian calendar
//! conversion to and from fixed day numbers (R.D.), fixed-point angle
//! normalization, classification of phase angles into the eight named lunar
//! phases, and the state machine that walks successive principal-phase
//! events across a time range.
//!
//! Angles are handled in fixed-point units of 1e-9 degree, and points in
//! civil time as a day number paired with a nanosecond-of-day, so that every
//! rule in this crate is exact integer arithmetic with a proved contract.
//! The floating-point astronomical series that produce phase angles and
//! phase-crossing moments are supplied by the caller.

mod angle;
mod calendar;
mod iter;
mod moment;
mod phase;

pub use crate::angle::{
    clamp_angle, close_to_quarter, lemma_clamp_angle_periodic, spec_clamp_angle,
    spec_close_to_quarter, FULL_TURN, HALF_TURN, PHASE_EPSILON, QUARTER_TURN, THREE_QUARTER_TURN,
    UNITS_PER_DEGREE,
};
pub use crate::calendar::{
    fixed_from_gregorian, gregorian_from_fixed, gregorian_new_year, gregorian_year_from_fixed,
    is_gregorian_leap_year, is_leap_year, lemma_days_in_year, lemma_days_through_year_ordered,
    lemma_fixed_from_gregorian_round_trip, lemma_gregorian_from_fixed_valid,
    lemma_year_from_fixed_bounds, lemma_year_from_fixed_in_range, nonneg, spec_days_in_month,
    spec_days_through_year, spec_fixed_from_gregorian, spec_gregorian_from_fixed,
    spec_gregorian_year_from_fixed, spec_month_offset, valid_civil_date, MAX_DAY, MAX_YEAR,
    MIN_DAY, MIN_YEAR,
};
pub use crate::iter::{
    lemma_events_strictly_ordered, lemma_iter_fused, lemma_step_advances,
    lemma_target_cycle_forward, lemma_target_cycle_reverse, DailyIter, Iter,
};
pub use crate::moment::{
    lemma_clock_fields, CivilTime, Timestamp, NANOS_PER_DAY, NANOS_PER_HOUR, NANOS_PER_MINUTE,
    NANOS_PER_SECOND,
};
pub use crate::phase::{Phase, PrincipalPhase};
