//! Query results for waypoint lookups in a navigation database.
//!
//! The database itself assembles waypoints, countries and airways from
//! navigation-data text files; that file handling lives with the I/O layer
//! around this library. The query result type it reports is plain data and
//! lives here.

use vstd::prelude::*;

verus! {

/// The result of a query for a waypoint or waypoints in a navigation
/// database.
#[derive(Debug)]
pub enum WaypointQueryResult<T> {
    /// `T` was found.
    Found(T),

    /// `T` was found but it was too far.
    TooFar(T),

    /// `T` was not found at all.
    NotFound,
}

impl<T> WaypointQueryResult<T> {
    /// Returns true if the result is `Found`.
    pub fn is_found(self) -> (r: bool)
        ensures
            r == (self is Found),
    {
        match self {
            WaypointQueryResult::Found(_) => true,
            WaypointQueryResult::TooFar(_) => false,
            WaypointQueryResult::NotFound => false,
        }
    }

    /// Returns true if the result is `NotFound`.
    pub fn is_none(self) -> (r: bool)
        ensures
            r == (self is NotFound),
    {
        match self {
            WaypointQueryResult::Found(_) => false,
            WaypointQueryResult::TooFar(_) => false,
            WaypointQueryResult::NotFound => true,
        }
    }

    /// Returns true if the result is `TooFar`.
    pub fn is_too_far(self) -> (r: bool)
        ensures
            r == (self is TooFar),
    {
        match self {
            WaypointQueryResult::Found(_) => false,
            WaypointQueryResult::TooFar(_) => true,
            WaypointQueryResult::NotFound => false,
        }
    }

    /// Converts from `WaypointQueryResult<T>` to `Option<T>`. Returns
    /// `None` if the result is not `Found`.
    pub fn found(self) -> (r: Option<T>)
        ensures
            match self {
                WaypointQueryResult::Found(x) => r == Some(x),
                _ => r is None,
            },
    {
        match self {
            WaypointQueryResult::Found(x) => Some(x),
            WaypointQueryResult::TooFar(_) => None,
            WaypointQueryResult::NotFound => None,
        }
    }

    /// Converts from `WaypointQueryResult<T>` to `Option<T>`. Returns
    /// `None` if the result is not `TooFar`.
    pub fn too_far(self) -> (r: Option<T>)
        ensures
            match self {
                WaypointQueryResult::TooFar(x) => r == Some(x),
                _ => r is None,
            },
    {
        match self {
            WaypointQueryResult::Found(_) => None,
            WaypointQueryResult::TooFar(x) => Some(x),
            WaypointQueryResult::NotFound => None,
        }
    }
}

} // verus!
