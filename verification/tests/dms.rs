// Angles are fixed point: seconds of arc in 1e-5 second units (27.40
// seconds is 2_740_000), decimal degrees in 1e-7 degree units
// (48.5863964 degrees is 485_863_964).

use geomorph::coord::Coord;
use geomorph::dms::{DMS, DMSBasic};
use geomorph::mgrs::Mgrs;
use geomorph::utm::Utm;

#[test]
fn instance_dmsbasic() {
    let lat = DMSBasic::new(49, 36, 2_740_000);
    assert_eq!(lat.dd, 49);
    assert_eq!(lat.mm, 36);
    assert_eq!(lat.ss, 2_740_000);

    let lat = DMSBasic::new(-1, 31, 5_730_000);
    assert_eq!(lat.dd, -1);
    assert_eq!(lat.mm, 31);
    assert_eq!(lat.ss, 5_730_000);
}

#[test]
fn instance_dms() {
    let lat = DMSBasic::new(49, 36, 2_740_000);
    let lon = DMSBasic::new(37, 19, 5_014_000);
    let point = DMS::new(lat, lon);
    assert_eq!(point.lat, lat);
    assert_eq!(point.lon, lon);
}

#[test]
fn from_coord() {
    let lat = DMSBasic::new(48, 35, 1_103_000);
    let lon = DMSBasic::new(36, 31, 4_491_000);
    let base_point = Coord::new(485_863_964, 365_291_404);
    let point = DMS::from_coord(base_point);
    // within 0.01 seconds of arc, which is 1_000 units
    assert!((point.lat.ss - lat.ss).abs() <= 1_000);
    assert!((point.lon.ss - lon.ss).abs() <= 1_000);
}

#[test]
fn to_coord() {
    let lat = DMSBasic::new(-2, 23, 2_446_000);
    let lon = DMSBasic::new(18, 32, 5_956_000);
    let base_point = DMS::new(lat, lon);
    let point = base_point.to_coord();
    // within 0.01 degrees, which is 100_000 units
    assert!((point.lat - -23_901_266i64).abs() <= 100_000);
    assert!((point.lon - 185_498_764i64).abs() <= 100_000);
}

#[test]
fn carry_seconds_to_minutes() {
    // 70 seconds: one whole minute carries, 10 seconds remain
    let t = DMSBasic::new(0, 0, 7_000_000);
    assert_eq!(t.dd, 0);
    assert_eq!(t.mm, 1);
    assert_eq!(t.ss, 1_000_000);

    // 365 seconds on top of 5 minutes: six minutes carry
    let t = DMSBasic::new(10, 5, 36_500_000);
    assert_eq!(t.dd, 10);
    assert_eq!(t.mm, 11);
    assert_eq!(t.ss, 500_000);
}

#[test]
fn carry_minutes_to_degrees() {
    // 130 minutes: two whole degrees carry, 10 minutes remain
    let t = DMSBasic::new(5, 130, 0);
    assert_eq!(t.dd, 7);
    assert_eq!(t.mm, 10);
    assert_eq!(t.ss, 0);
}

#[test]
fn boundary_not_normalized() {
    // exactly 60 minutes and exactly 60.0 seconds both pass through
    let t = DMSBasic::new(1, 60, 6_000_000);
    assert_eq!(t.dd, 1);
    assert_eq!(t.mm, 60);
    assert_eq!(t.ss, 6_000_000);
}

#[test]
fn negative_seconds_pass_through() {
    let t = DMSBasic::new(0, 0, -5_730_000);
    assert_eq!(t.dd, 0);
    assert_eq!(t.mm, 0);
    assert_eq!(t.ss, -5_730_000);
}

#[test]
fn degree_field_unconstrained() {
    let t = DMSBasic::new(1000, 10, 0);
    assert_eq!(t.dd, 1000);
    let t = DMSBasic::new(-999, 0, 0);
    assert_eq!(t.dd, -999);
}

#[test]
fn range_reduction() {
    // latitude degrees outside [-90, 90] reduce modulo 90, keeping the
    // sign of the dividend; longitude likewise modulo 180
    let p = DMS::new(DMSBasic::new(91, 30, 0), DMSBasic::new(181, 0, 0));
    assert_eq!(p.lat.dd, 1);
    assert_eq!(p.lat.mm, 30);
    assert_eq!(p.lon.dd, 1);

    let p = DMS::new(DMSBasic::new(-100, 0, 0), DMSBasic::new(-200, 0, 0));
    assert_eq!(p.lat.dd, -10);
    assert_eq!(p.lon.dd, -20);
}

#[test]
fn range_boundaries_pass_through() {
    let p = DMS::new(DMSBasic::new(90, 0, 0), DMSBasic::new(180, 0, 0));
    assert_eq!(p.lat.dd, 90);
    assert_eq!(p.lon.dd, 180);
    let p = DMS::new(DMSBasic::new(-90, 0, 0), DMSBasic::new(-180, 0, 0));
    assert_eq!(p.lat.dd, -90);
    assert_eq!(p.lon.dd, -180);
}

#[test]
fn round_trip_exact() {
    // in the fixed-point model the round trip through DMS is exact
    let cases = [
        (485_863_964i64, 365_291_404i64),
        (-23_901_266, 185_498_764),
        (-5_000_000, 5_000_000),
        (0, 0),
        (900_000_000, -1_800_000_000),
    ];
    for (lat, lon) in cases {
        let c = Coord::new(lat, lon);
        let back = DMS::from_coord(c).to_coord();
        assert_eq!(back.lat, lat);
        assert_eq!(back.lon, lon);
    }
}

#[test]
fn from_coord_negative_degrees() {
    // a negative coordinate of at least one whole degree carries its
    // sign on the degree field, minutes and seconds being magnitudes
    let p = DMS::from_coord(Coord::new(-23_901_266, 185_498_764));
    assert_eq!(p.lat.dd, -2);
    assert_eq!(p.lat.mm, 23);
    assert!((p.lat.ss - 2_446_000).abs() <= 1_000);
    assert_eq!(p.lon.dd, 18);
    assert_eq!(p.lon.mm, 32);
    assert!((p.lon.ss - 5_956_000).abs() <= 1_000);
}

#[test]
fn hemisphere_rendering() {
    let north_east = DMS::new(DMSBasic::new(10, 0, 0), DMSBasic::new(20, 0, 0)).render();
    assert!(north_east.contains("N, "));
    assert!(north_east.ends_with('E'));

    let south_west = DMS::new(DMSBasic::new(-10, 0, 0), DMSBasic::new(-20, 0, 0)).render();
    assert!(south_west.contains("S, "));
    assert!(south_west.ends_with('W'));

    // exact zero renders the positive hemisphere
    let zero = DMS::new(DMSBasic::new(0, 0, 0), DMSBasic::new(0, 0, 0)).render();
    assert!(zero.contains("N, "));
    assert!(zero.ends_with('E'));
}

#[test]
fn render_mixed_hemispheres() {
    // positive latitude, negative longitude
    let p = DMS::new(DMSBasic::new(49, 36, 2_740_000), DMSBasic::new(-37, 19, 5_014_000));
    let s = p.render();
    assert!(s.contains("N, "));
    assert!(s.ends_with('W'));
    assert_eq!(s, "49°36'27.4\"N, 37°19'50.14\"W");
}

#[test]
fn render_exact_text() {
    let t = DMSBasic::new(49, 36, 2_740_000);
    assert_eq!(t.render(), "49°36'27.4\"");
    // the degree sign is dropped; whole seconds print no decimal point
    let t = DMSBasic::new(-1, 31, 5_700_000);
    assert_eq!(t.render(), "1°31'57\"");
    // negative seconds keep their sign in the text
    let t = DMSBasic::new(0, 0, -5_000);
    assert_eq!(t.render(), "0°0'-0.05\"");
}

#[test]
fn transitive_equivalence() {
    let c = Coord::new(485_863_964, 365_291_404);
    let via_utm = DMS::from_utm(Utm::new(c));
    let via_mgrs = DMS::from_mgrs(Mgrs::new(c));
    let direct = DMS::from_coord(Utm::new(c).to_coord());
    assert_eq!(via_utm, direct);
    assert_eq!(via_mgrs, direct);
}
