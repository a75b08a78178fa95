// Tests for the geohash codec and the wraparound rectification. Positions
// are in fixed-point millionths of a degree over the latitude/longitude
// domain.

use oldnav_lib::geohash::hash_from_string;
use oldnav_lib::geohash::hash_precision;
use oldnav_lib::geohash::hash_to_string;
use oldnav_lib::geohash::latlon_bounds;
use oldnav_lib::geohash::decode;
use oldnav_lib::geohash::decode_precision;
use oldnav_lib::geohash::decode_precision_nocheck;
use oldnav_lib::geohash::encode;
use oldnav_lib::geohash::neighbor;
use oldnav_lib::geohash::Bounds;
use oldnav_lib::geohash::GeohashError;
use oldnav_lib::geohash::Point;
use oldnav_lib::geohash::Rectifiable;

/// test spherical rectify with coordinate that falls outside the boundary
#[test]
fn test_spherical_rectify_out1() {
    let mut p = Point { x: -185_000_000, y: 30_000_000 };
    p.spherical_rectify(&latlon_bounds());
    assert_eq!(p, Point { x: 175_000_000, y: 30_000_000 });
}

/// test spherical rectify with coordinate that falls outside the boundary
#[test]
fn test_spherical_rectify_out2() {
    let mut p = Point { x: 5_000_000, y: 95_000_000 };
    p.spherical_rectify(&latlon_bounds());
    assert_eq!(p, Point { x: -175_000_000, y: 85_000_000 });
}

/// test spherical rectify with coordinate that falls outside the boundary
#[test]
fn test_spherical_rectify_out3() {
    let mut p = Point { x: -5_000_000, y: 95_000_000 };
    p.spherical_rectify(&latlon_bounds());
    assert_eq!(p, Point { x: 175_000_000, y: 85_000_000 });
}

/// test spherical rectify with coordinate that falls outside the boundary
#[test]
fn test_spherical_rectify_out4() {
    let mut p = Point { x: 175_000_000, y: 95_000_000 };
    p.spherical_rectify(&latlon_bounds());
    assert_eq!(p, Point { x: -5_000_000, y: 85_000_000 });
}

/// test spherical rectify with coordinate that falls outside the boundary
#[test]
fn test_spherical_rectify_out5() {
    let mut p = Point { x: 175_000_000, y: -95_000_000 };
    p.spherical_rectify(&latlon_bounds());
    assert_eq!(p, Point { x: -5_000_000, y: -85_000_000 });
}

/// test spherical rectify with coordinate that falls outside the boundary
#[test]
fn test_spherical_rectify_out6() {
    let mut p = Point { x: 185_000_000, y: -95_000_000 };
    p.spherical_rectify(&latlon_bounds());
    assert_eq!(p, Point { x: 5_000_000, y: -85_000_000 });
}

/// test spherical rectify with coordinate that falls outside the boundary
#[test]
fn test_spherical_rectify_out7() {
    let mut p = Point { x: -185_000_000, y: -95_000_000 };
    p.spherical_rectify(&latlon_bounds());
    assert_eq!(p, Point { x: -5_000_000, y: -85_000_000 });
}

/// test spherical rectify with coordinate that falls outside the boundary
#[test]
fn test_spherical_rectify_out8() {
    let mut p = Point { x: 185_000_000, y: 95_000_000 };
    p.spherical_rectify(&latlon_bounds());
    assert_eq!(p, Point { x: 5_000_000, y: 85_000_000 });
}

/// test spherical rectify with coordinate that is inside the boundary
#[test]
fn test_spherical_rectify_in1() {
    let mut p = Point { x: 5_000_000, y: -30_000_000 };
    p.spherical_rectify(&latlon_bounds());
    assert_eq!(p, Point { x: 5_000_000, y: -30_000_000 });
}

#[test]
fn test_spherical_rectify_far_out() {
    // several x extents away still wraps back to the same longitude
    let mut p = Point { x: -185_000_000 - 3 * 360_000_000, y: 30_000_000 };
    p.spherical_rectify(&latlon_bounds());
    assert_eq!(p, Point { x: 175_000_000, y: 30_000_000 });

    // y folds by whole extents first and then reflects over the pole,
    // shifting x by half a turn
    let mut q = Point { x: -185_000_000, y: 30_000_000 - 2 * 180_000_000 };
    q.spherical_rectify(&latlon_bounds());
    assert_eq!(q, Point { x: -5_000_000, y: -30_000_000 });
}

#[test]
fn test_encode_example() {
    let p = Point { x: 121_473_000, y: 31_230_000 };
    let bounds = latlon_bounds();
    let gh = encode(&p, 8, &bounds).unwrap();
    assert_eq!(hash_to_string(gh).unwrap(), "11100110");
}

#[test]
fn test_encode_invalid_precision() {
    let p = Point { x: 0, y: 0 };
    let bounds = latlon_bounds();
    assert_eq!(encode(&p, 0, &bounds), Err(GeohashError::InvalidPrecision));
    assert_eq!(encode(&p, 59, &bounds), Err(GeohashError::InvalidPrecision));
    assert!(encode(&p, 1, &bounds).is_ok());
    assert!(encode(&p, 58, &bounds).is_ok());
}

#[test]
fn test_hash_string_round_trip() {
    let gh = hash_from_string("11101011").unwrap();
    assert_eq!(hash_to_string(gh).unwrap(), "11101011");

    let gh = hash_from_string("1111").unwrap();
    assert_eq!(hash_to_string(gh).unwrap(), "1111");
}

#[test]
fn test_hash_from_string_invalid_length() {
    assert_eq!(hash_from_string(""), Err(GeohashError::InvalidPrecision));
    let too_long: String = ["0"; 59].concat();
    assert_eq!(
        hash_from_string(too_long.as_str()),
        Err(GeohashError::InvalidPrecision)
    );
    let longest: String = ["1"; 58].concat();
    assert!(hash_from_string(longest.as_str()).is_ok());
}

#[test]
fn test_hash_precision() {
    let gh = hash_from_string("1010").unwrap();
    assert_eq!(4, hash_precision(gh));

    let gh = hash_from_string("00000000").unwrap();
    assert_eq!(8, hash_precision(gh));
}

#[test]
fn test_decode_contains_encoded() {
    let p = Point { x: 148_234_000, y: -38_120_000 };
    let bounds = latlon_bounds();
    let gh = encode(&p, 40, &bounds).unwrap();
    let b = decode(gh, &bounds).unwrap();
    assert!(b.contains(&p));
}

#[test]
fn test_decode_precision_truncates() {
    let bounds = latlon_bounds();
    let gh8 = hash_from_string("11110000").unwrap();
    let gh4 = hash_from_string("1111").unwrap();
    // a truncated decode matches the decode of the truncated hash
    assert_eq!(
        decode_precision(gh8, 4, &bounds).unwrap(),
        decode(gh4, &bounds).unwrap()
    );
    assert_eq!(
        decode_precision_nocheck(gh8, 4, &bounds).unwrap(),
        decode(gh4, &bounds).unwrap()
    );
    // asking for more precision than the hash stores fails
    assert_eq!(
        decode_precision(gh8, 9, &bounds),
        Err(GeohashError::PrecisionExceeded)
    );
    assert!(decode_precision(gh8, 8, &bounds).is_ok());
}

#[test]
fn test_bounds_mid_and_ranges() {
    let b = Bounds::new(-180_000_000, 180_000_000, -90_000_000, 90_000_000);
    let m = b.mid();
    assert_eq!(m, Point { x: 0, y: 0 });
    assert_eq!(b.x_range(), 360_000_000);
    assert_eq!(b.y_range(), 180_000_000);
}

#[test]
fn test_bounds_contains() {
    let b = Bounds::new(-21_000_000, 0, 2_000_000, 4_000_000);
    let p1 = Point { x: -2_100_000, y: 2_450_000 };
    assert!(b.contains(&p1));
    let p2 = Point { x: -100_000_000, y: 2_450_000 };
    assert!(!b.contains(&p2));
}

#[test]
fn test_neighbor() {
    let bounds = latlon_bounds();
    // the cell of (5, -30) degrees at precision 2: x in [0, 180],
    // y in [-90, 0] degrees, bits "10"
    let p = Point { x: 5_000_000, y: -30_000_000 };
    let gh = encode(&p, 2, &bounds).unwrap();
    assert_eq!(hash_to_string(gh).unwrap(), "10");

    // one cell east wraps around the antimeridian to x in [-180, 0]
    let east = neighbor(gh, (1, 0), &bounds, true).unwrap();
    assert_eq!(hash_to_string(east).unwrap(), "00");
    // one cell north lands at y in [0, 90]
    let north = neighbor(gh, (0, 1), &bounds, false).unwrap();
    assert_eq!(hash_to_string(north).unwrap(), "11");
    // the neighbor keeps the hash's precision
    assert_eq!(hash_precision(east), 2);
    assert_eq!(hash_precision(north), 2);
}

#[test]
fn test_error_messages() {
    assert_eq!(
        GeohashError::InvalidPrecision.message(),
        "precision must be in the range of 1 to 58"
    );
    assert_eq!(
        GeohashError::PrecisionExceeded.message(),
        "selected precision is greater than the precision of the hash"
    );
}
