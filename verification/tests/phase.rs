use esbat::{Phase, PrincipalPhase, UNITS_PER_DEGREE};

const DEG: i64 = UNITS_PER_DEGREE;

#[test]
fn test_from_phase_range() {
    assert_eq!(Phase::from_phase_range(359 * DEG, 1 * DEG), Phase::NewMoon);
    assert_eq!(Phase::from_phase_range(0 * DEG, 2 * DEG), Phase::NewMoon);
    assert_eq!(Phase::from_phase_range(37 * DEG, 39 * DEG), Phase::WaxingCrescent);
    assert_eq!(Phase::from_phase_range(88 * DEG, 90 * DEG), Phase::WaxingCrescent);
    assert_eq!(Phase::from_phase_range(89 * DEG, 91 * DEG), Phase::FirstQuarter);
    assert_eq!(Phase::from_phase_range(90 * DEG, 92 * DEG), Phase::FirstQuarter);
    assert_eq!(Phase::from_phase_range(132 * DEG, 134 * DEG), Phase::WaxingGibbous);
    assert_eq!(Phase::from_phase_range(178 * DEG, 180 * DEG), Phase::WaxingGibbous);
    assert_eq!(Phase::from_phase_range(179 * DEG, 181 * DEG), Phase::FullMoon);
    assert_eq!(Phase::from_phase_range(180 * DEG, 182 * DEG), Phase::FullMoon);
    assert_eq!(Phase::from_phase_range(216 * DEG, 218 * DEG), Phase::WaningGibbous);
    assert_eq!(Phase::from_phase_range(268 * DEG, 270 * DEG), Phase::WaningGibbous);
    assert_eq!(Phase::from_phase_range(269 * DEG, 271 * DEG), Phase::LastQuarter);
    assert_eq!(Phase::from_phase_range(270 * DEG, 272 * DEG), Phase::LastQuarter);
    assert_eq!(Phase::from_phase_range(314 * DEG, 316 * DEG), Phase::WaningCrescent);
    assert_eq!(Phase::from_phase_range(358 * DEG, 0 * DEG), Phase::WaningCrescent);
}

#[test]
fn test_phase_as_emoji() {
    assert_eq!(Phase::NewMoon.as_emoji(), '\u{1f311}');
    assert_eq!(Phase::WaxingCrescent.as_emoji(), '\u{1f312}');
    assert_eq!(Phase::FirstQuarter.as_emoji(), '\u{1f313}');
    assert_eq!(Phase::WaxingGibbous.as_emoji(), '\u{1f314}');
    assert_eq!(Phase::FullMoon.as_emoji(), '\u{1f315}');
    assert_eq!(Phase::WaningGibbous.as_emoji(), '\u{1f316}');
    assert_eq!(Phase::LastQuarter.as_emoji(), '\u{1f317}');
    assert_eq!(Phase::WaningCrescent.as_emoji(), '\u{1f318}');
}

#[test]
fn test_phase_iter() {
    let phases = Phase::iter();
    assert_eq!(phases.len(), 8);
    assert_eq!(phases[0], Phase::NewMoon);
    assert_eq!(phases[4], Phase::FullMoon);
    assert_eq!(phases[7], Phase::WaningCrescent);
}

#[test]
fn test_is_principal() {
    assert!(Phase::NewMoon.is_principal());
    assert!(Phase::FirstQuarter.is_principal());
    assert!(Phase::FullMoon.is_principal());
    assert!(Phase::LastQuarter.is_principal());
    assert!(!Phase::WaxingCrescent.is_principal());
    assert!(!Phase::WaxingGibbous.is_principal());
    assert!(!Phase::WaningGibbous.is_principal());
    assert!(!Phase::WaningCrescent.is_principal());
}

#[test]
fn test_principal_phase_methods() {
    assert_eq!(PrincipalPhase::FullMoon.as_emoji(), '\u{1f315}');
    assert_eq!(PrincipalPhase::NewMoon.as_emoji(), '\u{1f311}');
    let phases = PrincipalPhase::iter();
    assert_eq!(phases.len(), 4);
    assert_eq!(phases[0], PrincipalPhase::NewMoon);
    assert_eq!(phases[3], PrincipalPhase::LastQuarter);
    assert_eq!(PrincipalPhase::NewMoon.as_angle(), 0);
    assert_eq!(PrincipalPhase::FirstQuarter.as_angle(), 90 * DEG);
    assert_eq!(PrincipalPhase::FullMoon.as_angle(), 180 * DEG);
    assert_eq!(PrincipalPhase::LastQuarter.as_angle(), 270 * DEG);
    assert_eq!(Phase::from(PrincipalPhase::NewMoon), Phase::NewMoon);
    assert_eq!(Phase::from(PrincipalPhase::FirstQuarter), Phase::FirstQuarter);
    assert_eq!(Phase::from(PrincipalPhase::FullMoon), Phase::FullMoon);
    assert_eq!(Phase::from(PrincipalPhase::LastQuarter), Phase::LastQuarter);
}
