//! A module with methods for `Country` and other associated functions and
//! interfaces.

use vstd::prelude::*;

verus! {

/// Represents a country on earth that is recognised in the ICAO codes.
#[derive(Debug)]
pub struct Country {
    /// The ICAO code of the country.
    pub code: String,

    /// The name of the country.
    pub name: String,
}

impl Country {
    /// Constructor for the `Country` struct.
    pub fn new(code: String, name: String) -> (c: Country)
        ensures
            c.code == code,
            c.name == name,
    {
        Country { code, name }
    }
}

} // verus!
