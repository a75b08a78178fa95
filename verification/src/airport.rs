//! A module with methods for `Airport` and other associated functions.

use vstd::prelude::*;
use crate::coord::SphericalCoordinate;
use crate::waypoint::Waypoint;
use crate::waypoint::WaypointInterface;

verus! {

/// An airport on earth.
#[derive(Debug)]
pub struct Airport {
    /// This airport's waypoint.
    pub waypoint: Waypoint,
}

impl Airport {
    /// Constructor for `Airport`.
    pub fn new(code: String, name: String, pos: SphericalCoordinate) -> (a: Airport)
        ensures
            a.waypoint.code == code,
            a.waypoint.name == name,
            a.waypoint.pos == pos,
            a.waypoint.airport is None,
    {
        Airport { waypoint: Waypoint::new(code, name, pos, None) }
    }
}

impl WaypointInterface for Airport {
    open spec fn spec_code(&self) -> Seq<char> {
        self.waypoint.code@
    }

    open spec fn spec_name(&self) -> Seq<char> {
        self.waypoint.name@
    }

    open spec fn spec_pos(&self) -> SphericalCoordinate {
        self.waypoint.pos
    }

    fn code(&self) -> &str {
        self.waypoint.code.as_str()
    }

    fn name(&self) -> &str {
        self.waypoint.name.as_str()
    }

    fn pos(&self) -> &SphericalCoordinate {
        &self.waypoint.pos
    }
}

} // verus!
