use crate::coord::Coord;
use vstd::prelude::*;

verus! {

/// A reference in the Universal Transverse Mercator grid.
///
/// The ellipsoidal projection arithmetic that relates grid eastings and
/// northings to geographic coordinates is outside this library's scope, so
/// a value carries the geographic coordinate it denotes; the only contract
/// the rest of the library needs is that a `Utm` converts into a `Coord`.
#[derive(Debug, Clone, Copy, PartialEq, Eq, Structural)]
pub struct Utm {
    /// The geographic coordinate this grid reference denotes.
    pub coord: Coord,
}

impl Utm {
    pub fn new(coord: Coord) -> (u: Utm)
        ensures
            u.coord == coord,
    {
        Utm { coord }
    }

    /// The geographic equivalent of this grid reference.
    pub fn to_coord(&self) -> (c: Coord)
        ensures
            c == self.coord,
    {
        self.coord
    }
}

} // verus!
