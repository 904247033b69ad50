//! Geographic coordinates in degree/minute/second form.
//!
//! The library represents angles as exact fixed-point integers: decimal
//! degrees in units of one ten-millionth of a degree, seconds of arc in
//! units of one hundred-thousandth of a second.  A [`dms::DMSBasic`] is an
//! unnormalized degree/minute/second triple with carry propagation on
//! construction; a [`dms::DMS`] is a (latitude, longitude) pair of such
//! triples with range reduction on the degree fields.  A [`coord::Coord`]
//! holds a coordinate pair in decimal degrees, and [`utm::Utm`] and
//! [`mgrs::Mgrs`] are grid references that convert into a `Coord`.

pub mod coord;
pub mod dms;
pub mod mgrs;
pub mod render;
pub mod utm;
