// Tests for the navigation-data value types: countries, waypoints,
// airports, the multi-valued hash and waypoint query results.

use std::rc::Rc;
use oldnav_lib::airport::Airport;
use oldnav_lib::coord::SphericalCoordinate;
use oldnav_lib::country::Country;
use oldnav_lib::database::WaypointQueryResult;
use oldnav_lib::geohash::hash_to_string;
use oldnav_lib::geohash::Geohashable;
use oldnav_lib::multihash::MultiHash;
use oldnav_lib::waypoint::UnlinkedWaypoint;
use oldnav_lib::waypoint::Waypoint;
use oldnav_lib::waypoint::WaypointInterface;

#[test]
fn test_country_new() {
    let new_country = Country::new("AG".to_string(), "Solomon Islands".to_string());
    assert_eq!(new_country.code, "AG".to_string());
    assert_eq!(new_country.name, "Solomon Islands".to_string());
}

#[test]
fn test_waypoint_new() {
    let pos = SphericalCoordinate::from_geographic(0, -9_664_830, 161_021_660);
    let airport = Rc::new(Airport::new(
        "AGGH".to_string(),
        "Honiara International".to_string(),
        pos,
    ));
    let waypoint = Waypoint::new(
        "ERVOS".to_string(),
        "ERVOS".to_string(),
        pos,
        Some(airport.clone()),
    );
    assert_eq!(waypoint.code(), "ERVOS");
    assert_eq!(waypoint.name(), "ERVOS");
    assert_eq!(waypoint.pos().lat(), -9_664_830);
    assert_eq!(waypoint.pos().lon(), 161_021_660);
    assert_eq!(waypoint.airport.as_ref().unwrap().code(), "AGGH");
}

#[test]
fn test_unlinked_waypoint_new() {
    let pos = SphericalCoordinate::from_geographic(0, 10_000_000, 20_000_000);
    let waypoint = UnlinkedWaypoint::new(
        "WPT01".to_string(),
        "Waypoint One".to_string(),
        pos,
        Some("AGGH".to_string()),
    );
    assert_eq!(waypoint.code(), "WPT01");
    assert_eq!(waypoint.name(), "Waypoint One");
    assert_eq!(waypoint.pos().lat(), 10_000_000);
    assert_eq!(waypoint.airport, Some("AGGH".to_string()));
}

#[test]
fn test_airport_interface() {
    let pos = SphericalCoordinate::from_geographic(0, -9_664_830, 161_021_660);
    let airport = Airport::new(
        "AGGH".to_string(),
        "Honiara International".to_string(),
        pos,
    );
    assert_eq!(airport.code(), "AGGH");
    assert_eq!(airport.name(), "Honiara International");
    assert_eq!(airport.pos().lon(), 161_021_660);
}

#[test]
fn test_multihash_insert_get() {
    let mut mh: MultiHash<u32, &str> = MultiHash::new();
    assert!(!mh.contains_key(&7));
    assert!(mh.get(&7).is_none());

    mh.insert(7, "first");
    mh.insert(7, "second");
    mh.insert(9, "other");

    assert!(mh.contains_key(&7));
    assert!(mh.contains_key(&9));
    assert!(!mh.contains_key(&8));
    assert_eq!(mh.get(&7).unwrap().as_slice(), &["first", "second"]);
    assert_eq!(mh.get(&9).unwrap().as_slice(), &["other"]);
}

#[test]
fn test_multihash_string_keys() {
    let mut mh: MultiHash<String, u64> = MultiHash::new();
    mh.insert("ERVOS".to_string(), 1);
    mh.insert("ERVOS".to_string(), 2);
    assert_eq!(mh.get(&"ERVOS".to_string()).unwrap().as_slice(), &[1, 2]);
    assert!(!mh.contains_key(&"OTHER".to_string()));
}

#[test]
fn test_waypoint_query_result() {
    assert!(WaypointQueryResult::Found(5).is_found());
    assert!(!WaypointQueryResult::TooFar(5).is_found());
    assert!(!WaypointQueryResult::<u32>::NotFound.is_found());

    assert!(!WaypointQueryResult::Found(5).is_none());
    assert!(!WaypointQueryResult::TooFar(5).is_none());
    assert!(WaypointQueryResult::<u32>::NotFound.is_none());

    assert!(!WaypointQueryResult::Found(5).is_too_far());
    assert!(WaypointQueryResult::TooFar(5).is_too_far());
    assert!(!WaypointQueryResult::<u32>::NotFound.is_too_far());

    assert_eq!(WaypointQueryResult::Found(5).found(), Some(5));
    assert_eq!(WaypointQueryResult::TooFar(5).found(), None);
    assert_eq!(WaypointQueryResult::<u32>::NotFound.found(), None);

    assert_eq!(WaypointQueryResult::Found(5).too_far(), None);
    assert_eq!(WaypointQueryResult::TooFar(5).too_far(), Some(5));
    assert_eq!(WaypointQueryResult::<u32>::NotFound.too_far(), None);
}

#[test]
fn test_coordinate_geohash_round_trip() {
    let pos = SphericalCoordinate::from_geographic(0, 31_230_000, 121_473_000);
    let gh = pos.integer_encode(8).unwrap();
    assert_eq!(hash_to_string(gh).unwrap(), "11100110");

    // decoding gives the midpoint of the encoded cell, which stays within
    // the cell's extents of the original position
    let decoded = SphericalCoordinate::integer_decode(gh).unwrap();
    // at precision 8 the cell is 22.5 degrees wide and 11.25 degrees tall
    assert!((decoded.lon() - pos.lon()).abs() <= 22_500_000);
    assert!((decoded.lat() - pos.lat()).abs() <= 11_250_000);
    assert_eq!(decoded.alt(), 0);

    // encoding the decoded midpoint finds the same cell again
    let gh2 = decoded.integer_encode(8).unwrap();
    assert_eq!(hash_to_string(gh2).unwrap(), hash_to_string(gh).unwrap());
}

#[test]
fn test_coordinate_encode_invalid_precision() {
    let pos = SphericalCoordinate::from_geographic(0, 0, 0);
    assert!(pos.integer_encode(0).is_err());
    assert!(pos.integer_encode(59).is_err());
}
