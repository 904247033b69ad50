use crate::coord::Coord;
use vstd::prelude::*;

verus! {

/// A reference in the Military Grid Reference System.
///
/// The grid-square lettering that sits on top of the Universal Transverse
/// Mercator grid is outside this library's scope, so a value carries the
/// geographic coordinate it denotes; the only contract the rest of the
/// library needs is that an `Mgrs` converts into a `Coord`.
#[derive(Debug, Clone, Copy, PartialEq, Eq, Structural)]
pub struct Mgrs {
    /// The geographic coordinate this grid reference denotes.
    pub coord: Coord,
}

impl Mgrs {
    pub fn new(coord: Coord) -> (m: Mgrs)
        ensures
            m.coord == coord,
    {
        Mgrs { coord }
    }

    /// The geographic equivalent of this grid reference.
    pub fn to_coord(&self) -> (c: Coord)
        ensures
            c == self.coord,
    {
        self.coord
    }
}

} // verus!
