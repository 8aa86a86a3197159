use jord::Angle;
use jord::DmsError;
use jord::Measure;

#[test]
fn one_microarcsecond() {
    // 60.0 degrees and 59.9999999999 degrees differ by well under one
    // microarcsecond, so they collapse to the same count; 59.999999998
    // degrees differs by more than one.
    assert_eq!(
        Angle::from_decimal_degrees(60, 0),
        Angle::from_decimal_degrees(599999999999, 10)
    );
    assert_ne!(
        Angle::from_decimal_degrees(60, 0),
        Angle::from_decimal_degrees(59999999998, 9)
    );
}

#[test]
fn one_arcmillisecond() {
    // 1/3600000 of a degree is one arcmillisecond.
    let a = Angle::from_decimal_degrees(277777777778, 18);
    assert_eq!(0, a.whole_degrees());
    assert_eq!(0, a.arcminutes());
    assert_eq!(0, a.arcseconds());
    assert_eq!(1, a.arcmilliseconds());
}

#[test]
fn one_arcsecond() {
    // 1000/3600000 of a degree is one arcsecond.
    let a = Angle::from_decimal_degrees(277777777778, 15);
    assert_eq!(0, a.whole_degrees());
    assert_eq!(0, a.arcminutes());
    assert_eq!(1, a.arcseconds());
    assert_eq!(0, a.arcmilliseconds());
}

#[test]
fn one_arcminute() {
    // 60000/3600000 of a degree is one arcminute.
    let a = Angle::from_decimal_degrees(16666666666667, 15);
    assert_eq!(0, a.whole_degrees());
    assert_eq!(1, a.arcminutes());
    assert_eq!(0, a.arcseconds());
    assert_eq!(0, a.arcmilliseconds());
}

#[test]
fn one_degrees() {
    let a = Angle::from_decimal_degrees(1, 0);
    assert_eq!(1, a.whole_degrees());
    assert_eq!(0, a.arcminutes());
    assert_eq!(0, a.arcseconds());
    assert_eq!(0, a.arcmilliseconds());
}

#[test]
fn positve_value() {
    let a = Angle::from_decimal_degrees(1549150300, 7);
    assert_eq!(154, a.whole_degrees());
    assert_eq!(54, a.arcminutes());
    assert_eq!(54, a.arcseconds());
    assert_eq!(108, a.arcmilliseconds());
}

#[test]
fn negative_value() {
    let a = Angle::from_decimal_degrees(-154915, 3);
    assert_eq!(-154, a.whole_degrees());
    assert_eq!(54, a.arcminutes());
    assert_eq!(54, a.arcseconds());
    assert_eq!(0, a.arcmilliseconds());
}

#[test]
fn zero_angle() {
    assert_eq!(Angle::from_decimal_degrees(0, 0), Angle::zero());
    assert_eq!(0, Angle::zero().microarcseconds());
}

#[test]
fn one_degree_in_microarcseconds() {
    assert_eq!(3_600_000_000, Angle::from_decimal_degrees(1, 0).microarcseconds());
}

#[test]
fn rounds_half_away_from_zero() {
    // 1.25e-9 degrees is exactly 4.5 microarcseconds: the tie rounds away
    // from zero, on both sides.
    assert_eq!(5, Angle::from_decimal_degrees(125, 11).microarcseconds());
    assert_eq!(-5, Angle::from_decimal_degrees(-125, 11).microarcseconds());
    // 0.9 microarcseconds rounds up, 0.4 rounds down.
    assert_eq!(1, Angle::from_decimal_degrees(25, 11).microarcseconds());
    assert_eq!(0, Angle::from_decimal_degrees(1, 10).microarcseconds());
}

#[test]
fn saturates_at_representable_range() {
    assert_eq!(
        i64::MAX,
        Angle::from_decimal_degrees(i64::MAX, 0).microarcseconds()
    );
    assert_eq!(
        i64::MIN,
        Angle::from_decimal_degrees(i64::MIN, 0).microarcseconds()
    );
    assert_eq!(
        i64::MAX,
        Angle::from_dms(i64::MAX, 59, 59_999_999).unwrap().microarcseconds()
    );
    assert_eq!(
        i64::MIN,
        Angle::from_dms(i64::MIN, 0, 0).unwrap().microarcseconds()
    );
}

#[test]
fn dms_invalid_arcminutes() {
    assert_eq!(Err(DmsError::InvalidArcMinutes), Angle::from_dms(10, 60, 0));
    assert_eq!(Err(DmsError::InvalidArcMinutes), Angle::from_dms(-10, -1, 0));
    // Minutes are checked first.
    assert_eq!(Err(DmsError::InvalidArcMinutes), Angle::from_dms(10, 61, 60_000_000));
}

#[test]
fn dms_invalid_arcseconds() {
    assert_eq!(Err(DmsError::InvalidArcSeconds), Angle::from_dms(10, 0, 60_000_000));
    assert_eq!(Err(DmsError::InvalidArcSeconds), Angle::from_dms(10, 0, -1));
}

#[test]
fn dms_boundaries_succeed() {
    // 59 minutes and 59.999999 seconds is the last valid triple.
    let a = Angle::from_dms(0, 59, 59_999_999).unwrap();
    assert_eq!(0, a.whole_degrees());
    assert_eq!(59, a.arcminutes());
    assert_eq!(59, a.arcseconds());
    assert_eq!(999, a.arcmilliseconds());
    assert!(Angle::from_dms(0, 0, 0).is_ok());
}

#[test]
fn dms_round_trip() {
    // 10 degrees, 30 minutes, 45 seconds is exactly 10.5125 degrees.
    assert_eq!(
        Ok(Angle::from_decimal_degrees(105125, 4)),
        Angle::from_dms(10, 30, 45_000_000)
    );
}

#[test]
fn dms_sign_handling() {
    // Only the degree field carries the sign; the other components are
    // magnitudes.
    let a = Angle::from_dms(-154, 3, 42_500_000).unwrap();
    assert_eq!(-154, a.whole_degrees());
    assert_eq!(3, a.arcminutes());
    assert_eq!(42, a.arcseconds());
    assert_eq!(500, a.arcmilliseconds());
    let b = Angle::from_dms(-154, 45, 42_500_000).unwrap();
    assert_eq!(45, b.arcminutes());
    assert_eq!(42, b.arcseconds());
    assert_eq!(500, b.arcmilliseconds());
}

#[test]
fn ordering_follows_microarcseconds() {
    let samples: Vec<i64> = vec![i64::MIN, -3_600_000_000, -1, 0, 1, 42, 3_600_000_000, i64::MAX];
    for &x in &samples {
        for &y in &samples {
            let a = Angle::from_resolution_unit(x);
            let b = Angle::from_resolution_unit(y);
            assert_eq!(a < b, x < y);
            assert_eq!(a == b, x == y);
            assert_eq!(a > b, x > y);
        }
    }
}

#[test]
fn equality_is_an_equivalence() {
    let a = Angle::from_decimal_degrees(105125, 4);
    let b = Angle::from_dms(10, 30, 45_000_000).unwrap();
    let c = Angle::from_decimal_degrees(1051250, 5);
    assert!(a == a);
    assert!(a == b && b == a);
    assert!(a == b && b == c && a == c);
}

#[test]
fn addition_and_subtraction_are_exact() {
    let pairs: Vec<(i64, i64)> = vec![
        (0, 0),
        (1, -1),
        (37_845_000_000, -557_694_108_000),
        (-5, 7),
        (123_456_789, 987_654_321),
    ];
    for &(x, y) in &pairs {
        let a = Angle::from_resolution_unit(x);
        let b = Angle::from_resolution_unit(y);
        assert_eq!((a + b) - b, a);
        assert_eq!((a + b).microarcseconds(), x + y);
        assert_eq!((a - b).microarcseconds(), x - y);
    }
    let a = Angle::from_resolution_unit(42);
    assert_eq!(-42, (-a).microarcseconds());
}
