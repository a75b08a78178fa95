// Tests for the spherical/geographic coordinate model. All values are in
// fixed-point millionths of a unit: degrees for angles, metres for radii.

use oldnav_lib::coord::SphericalCoordinate;
use oldnav_lib::coord::EARTH_MSL_RADIUS;
use oldnav_lib::coord::FULL_TURN;
use oldnav_lib::coord::HALF_TURN;
use oldnav_lib::coord::QUARTER_TURN;

#[test]
fn test_from_geographic() {
    let pos = SphericalCoordinate::from_geographic(0, 38_000_000, 148_000_000);

    // test to see if values were assigned accurately
    // and can be successfully converted back into alt/lat/lon
    assert_eq!(pos.alt(), 0);
    assert_eq!(pos.lat(), 38_000_000);
    assert_eq!(pos.lon(), 148_000_000);
}

#[test]
fn test_from_geographic_negative() {
    let pos = SphericalCoordinate::from_geographic(5_000_000, -90_000_000, -180_000_000);
    assert_eq!(pos.alt(), 5_000_000);
    assert_eq!(pos.lat(), -90_000_000);
    assert_eq!(pos.lon(), -180_000_000);
}

#[test]
fn test_from_geographic_antimeridian() {
    // A longitude of exactly +180 degrees folds to the equivalent -180.
    let pos = SphericalCoordinate::from_geographic(0, 0, 180_000_000);
    assert_eq!(pos.lon(), -180_000_000);
    assert_eq!(pos.lat(), 0);
}

#[test]
fn test_new_assigns_components() {
    let pos = SphericalCoordinate::new(10_000_000, HALF_TURN, 0);
    assert_eq!(pos.r, 10_000_000);
    assert_eq!(pos.theta, HALF_TURN);
    assert_eq!(pos.phi, 0);
}

#[test]
fn test_new_rectifies_theta() {
    // theta of three half-turns is rectified back to one half-turn
    let pos = SphericalCoordinate::new(10_000_000, 3 * HALF_TURN, 0);
    assert_eq!(pos.r, 10_000_000);
    assert_eq!(pos.theta, HALF_TURN);
    assert_eq!(pos.phi, 0);
}

#[test]
fn test_rectify_inplace_negative_theta() {
    let mut pos = SphericalCoordinate::new(30_000_000, 0, HALF_TURN);
    assert_eq!(pos.theta, 0);
    assert_eq!(pos.phi, HALF_TURN);

    // negative theta puts the coordinate outside the range [0, FULL_TURN)
    pos.theta = -HALF_TURN;
    pos.rectify_bounds_inplace();
    assert_eq!(pos.r, 30_000_000);
    assert_eq!(pos.theta, HALF_TURN);
    assert_eq!(pos.phi, HALF_TURN);
}

#[test]
fn test_rectify_pole_reflection() {
    // phi beyond a half turn folds back over the pole and shifts theta
    let pos = SphericalCoordinate::new(1_000_000, 0, HALF_TURN + 10_000_000);
    assert_eq!(pos.phi, HALF_TURN - 10_000_000);
    assert_eq!(pos.theta, HALF_TURN);
}

#[test]
fn test_rectify_idempotent() {
    let raw = SphericalCoordinate {
        r: 42,
        theta: -7 * FULL_TURN - 123_456,
        phi: 5 * FULL_TURN + 200_000_001,
    };
    let once = raw.rectify_bounds();
    let twice = once.rectify_bounds();
    assert_eq!(once, twice);
    assert!(0 <= once.theta && once.theta < FULL_TURN);
    assert!(0 <= once.phi && once.phi <= HALF_TURN);
}

#[test]
fn test_approx_eq() {
    let pos1 = SphericalCoordinate::new(10_000_000, HALF_TURN, 0);
    let pos2 = SphericalCoordinate::new(10_000_000, HALF_TURN, 100_000);
    assert!(pos1.approx_eq(&pos2, 200_000));
    assert!(!pos1.approx_eq(&pos2, 50_000));
}

#[test]
fn test_setters() {
    let mut pos = SphericalCoordinate::from_geographic(0, 10_000_000, 20_000_000);
    pos.set_alt(2_500_000);
    assert_eq!(pos.alt(), 2_500_000);
    assert_eq!(pos.r, 2_500_000 + EARTH_MSL_RADIUS);
    pos.set_lat(-45_000_000);
    assert_eq!(pos.lat(), -45_000_000);
    assert_eq!(pos.phi, QUARTER_TURN - 45_000_000);
    pos.set_lon(170_000_000);
    assert_eq!(pos.lon(), 170_000_000);
    assert_eq!(pos.theta, HALF_TURN + 170_000_000);
    // the other components are untouched
    assert_eq!(pos.alt(), 2_500_000);
    assert_eq!(pos.lat(), -45_000_000);
}

#[test]
fn test_angle_difference_heuristic() {
    let pos1 = SphericalCoordinate::new(0, 0, 0);
    let pos2 = SphericalCoordinate::new(0, 30_000, 40_000);
    // sqrt(30000^2 + 40000^2) == 50000 exactly
    assert_eq!(pos1.angle_difference_heuristic(&pos2), 50_000);
    assert_eq!(pos2.angle_difference_heuristic(&pos1), 50_000);
    // a non-square sum rounds down
    let pos3 = SphericalCoordinate::new(0, 3, 4);
    let pos4 = SphericalCoordinate::new(0, 0, 3);
    // sqrt(9 + 1) rounds down to 3
    assert_eq!(pos3.angle_difference_heuristic(&pos4), 3);
}

#[test]
fn test_fmt_geographic() {
    let pos = SphericalCoordinate::from_geographic(0, 38_000_000, 148_000_000);
    assert_eq!(
        pos.fmt_geographic(),
        "Point {alt: 0, lat: 38000000, lon: 148000000}".to_string()
    );
    let neg = SphericalCoordinate::from_geographic(-1_500_000, -9_664_830, 161_021_660);
    assert_eq!(
        neg.fmt_geographic(),
        "Point {alt: -1500000, lat: -9664830, lon: 161021660}".to_string()
    );
}
