//! A module with methods for `Waypoint` and other associated functions and
//! interfaces.

use vstd::prelude::*;
use std::rc::Rc;
use crate::airport::Airport;
use crate::coord::SphericalCoordinate;

verus! {

/// An ICAO waypoint, linked to the airport terminal area that contains it.
#[derive(Debug)]
pub struct Waypoint {
    /// ICAO waypoint code.
    pub code: String,

    /// Name of the waypoint.
    pub name: String,

    /// Position of the waypoint.
    pub pos: SphericalCoordinate,

    /// `Airport` terminal area containing this `Waypoint`.
    pub airport: Option<Rc<Airport>>,
}

/// A common interface for accessing objects which can provide waypoint
/// information.
pub trait WaypointInterface {
    /// The ICAO code this object reports.
    spec fn spec_code(&self) -> Seq<char>;

    /// The name this object reports.
    spec fn spec_name(&self) -> Seq<char>;

    /// The position this object reports.
    spec fn spec_pos(&self) -> SphericalCoordinate;

    /// Get the ICAO code for this waypoint.
    fn code(&self) -> (r: &str)
        ensures
            r@ == self.spec_code(),
    ;

    /// Get the name of this waypoint.
    fn name(&self) -> (r: &str)
        ensures
            r@ == self.spec_name(),
    ;

    /// Get the position of this waypoint.
    fn pos(&self) -> (r: &SphericalCoordinate)
        ensures
            *r == self.spec_pos(),
    ;
}

impl Waypoint {
    /// Constructor for `Waypoint`.
    pub fn new(code: String, name: String, pos: SphericalCoordinate, airport: Option<Rc<Airport>>) -> (w:
        Waypoint)
        ensures
            w.code == code,
            w.name == name,
            w.pos == pos,
            w.airport == airport,
    {
        Waypoint { code, name, pos, airport }
    }
}

impl WaypointInterface for Waypoint {
    open spec fn spec_code(&self) -> Seq<char> {
        self.code@
    }

    open spec fn spec_name(&self) -> Seq<char> {
        self.name@
    }

    open spec fn spec_pos(&self) -> SphericalCoordinate {
        self.pos
    }

    fn code(&self) -> &str {
        self.code.as_str()
    }

    fn name(&self) -> &str {
        self.name.as_str()
    }

    fn pos(&self) -> &SphericalCoordinate {
        &self.pos
    }
}

/// A waypoint whose airport is known only by name, before it is linked to
/// the airport itself.
#[derive(Debug)]
pub struct UnlinkedWaypoint {
    /// ICAO waypoint code.
    pub code: String,

    /// Name of the waypoint.
    pub name: String,

    /// Position of the waypoint.
    pub pos: SphericalCoordinate,

    /// Name of the `Airport` terminal area containing this waypoint.
    pub airport: Option<String>,
}

impl UnlinkedWaypoint {
    /// Constructor for `UnlinkedWaypoint`.
    pub fn new(code: String, name: String, pos: SphericalCoordinate, airport: Option<String>) -> (w:
        UnlinkedWaypoint)
        ensures
            w.code == code,
            w.name == name,
            w.pos == pos,
            w.airport == airport,
    {
        UnlinkedWaypoint { code, name, pos, airport }
    }
}

impl WaypointInterface for UnlinkedWaypoint {
    open spec fn spec_code(&self) -> Seq<char> {
        self.code@
    }

    open spec fn spec_name(&self) -> Seq<char> {
        self.name@
    }

    open spec fn spec_pos(&self) -> SphericalCoordinate {
        self.pos
    }

    fn code(&self) -> &str {
        self.code.as_str()
    }

    fn name(&self) -> &str {
        self.name.as_str()
    }

    fn pos(&self) -> &SphericalCoordinate {
        &self.pos
    }
}

} // verus!
