//! Fixed-point angles in units of 1e-9 degree.

use vstd::prelude::*;

verus! {

/// One degree, in angle units.
pub const UNITS_PER_DEGREE: i64 = 1_000_000_000;

/// A full turn (360 degrees), in angle units.
pub const FULL_TURN: i64 = 360_000_000_000;

/// A quarter turn (90 degrees), in angle units: the spacing of the four
/// principal phase angles.
pub const QUARTER_TURN: i64 = 90_000_000_000;

/// A half turn (180 degrees), in angle units: the full moon's phase angle.
pub const HALF_TURN: i64 = 180_000_000_000;

/// Three quarter turns (270 degrees), in angle units: the last quarter's
/// phase angle.
pub const THREE_QUARTER_TURN: i64 = 270_000_000_000;

/// Tolerance for detecting that a phase angle sits on a principal-phase
/// boundary: 1e-5 degree, in angle units.
pub const PHASE_EPSILON: i64 = 10_000;

/// Whether an angle lies within `PHASE_EPSILON` of a multiple of a
/// quarter turn, the spacing of the principal phase angles.
pub open spec fn spec_close_to_quarter(a: int) -> bool {
    let x = a % (QUARTER_TURN as int);
    x < PHASE_EPSILON || QUARTER_TURN - PHASE_EPSILON < x
}

/// Tests whether an angle lies within the boundary tolerance of a
/// principal phase angle.
pub fn close_to_quarter(a: i64) -> (r: bool)
    ensures
        r == spec_close_to_quarter(a as int),
{
    let x = a.checked_rem_euclid(QUARTER_TURN).unwrap();
    x < PHASE_EPSILON || QUARTER_TURN - PHASE_EPSILON < x
}

/// An angle normalized by floored modulo into `[0, FULL_TURN)`.
pub open spec fn spec_clamp_angle(x: int) -> int {
    x % (FULL_TURN as int)
}

/// Normalizes an angle into `[0, 360)` degrees by floored modulo.
pub fn clamp_angle(x: i64) -> (r: i64)
    ensures
        r == spec_clamp_angle(x as int),
        0 <= r < FULL_TURN,
{
    x.checked_rem_euclid(FULL_TURN).unwrap()
}

/// Normalization lands in `[0, 360)` degrees and is periodic: shifting the
/// input by a full turn does not change the result.
pub proof fn lemma_clamp_angle_periodic(x: int)
    ensures
        0 <= spec_clamp_angle(x) < FULL_TURN,
        spec_clamp_angle(x + FULL_TURN) == spec_clamp_angle(x),
{
    vstd::arithmetic::div_mod::lemma_mod_add_multiples_vanish(x, FULL_TURN as int);
}

} // verus!
