use vstd::prelude::*;

verus! {

/// Fixed-point units per decimal degree: one unit is 1e-7 of a degree.
pub const DEG_UNITS: i64 = 10_000_000;

/// A coordinate pair in decimal degrees, held in fixed point.
///
/// `lat` and `lon` are counts of [`DEG_UNITS`]ths of a degree, so
/// `lat == 485_863_964` stands for 48.5863964 degrees north.
#[derive(Debug, Clone, Copy, PartialEq, Eq, Structural)]
pub struct Coord {
    /// Latitude in 1e-7 degree units; positive is north.
    pub lat: i64,
    /// Longitude in 1e-7 degree units; positive is east.
    pub lon: i64,
}

impl Coord {
    pub fn new(lat: i64, lon: i64) -> (c: Coord)
        ensures
            c.lat == lat,
            c.lon == lon,
    {
        Coord { lat, lon }
    }
}

} // verus!
