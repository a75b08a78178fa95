//! Geospatial primitives for an aeronautical navigation dataset.
//!
//! The crate provides a spherical/geographic coordinate model and a
//! fixed-precision integer spatial index ("geohash") that maps a 2-D
//! position into a compact, precision-tagged integer and back, together
//! with the rectangular-bounds and wraparound-rectification logic both
//! depend on.
//!
//! All coordinates are fixed-point integers: angles and planar positions
//! are stored in millionths of a degree, radii and altitudes in millionths
//! of a metre. With that representation every operation of the core is
//! exact integer arithmetic, so rectification, encoding and decoding can
//! be specified and verified precisely.

pub mod airport;
pub mod coord;
pub mod country;
pub mod database;
pub mod geohash;
pub mod multihash;
pub mod waypoint;

pub use coord::SphericalCoordinate;
pub use geohash::Bounds;
pub use geohash::Point;
