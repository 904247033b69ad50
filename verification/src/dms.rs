use crate::coord::{Coord, DEG_UNITS};
use crate::mgrs::Mgrs;
use crate::render::{dec_seq, fmt_frac, fmt_u64, frac_seq};
use crate::utm::Utm;
use vstd::prelude::*;
use vstd::string::StringExecFns;

verus! {

/// Fixed-point units per second of arc: one unit is 1e-5 of a second.
pub const SUBSEC: i64 = 100_000;

/// A coordinate in unnormalized degree/minute/second form.
///
/// Seconds are held in fixed point: `ss` is a count of [`SUBSEC`]ths of a
/// second, so `ss == 2_740_000` stands for 27.40 seconds of arc.
#[derive(Debug, Clone, Copy, PartialEq, Eq, Structural)]
pub struct DMSBasic {
    /// Degrees: not constrained here; all range checks are done in `DMS`.
    /// Carries the sign of the whole coordinate.
    pub dd: i32,
    /// Minutes: construction leaves this in `[0, 60]`.
    pub mm: u32,
    /// Seconds in 1e-5 second units: construction carries any excess over
    /// 60 seconds into the minutes, and lets anything else pass through.
    pub ss: i64,
}

/// Whole minutes carried out of the seconds field: the integer part of
/// `ss / 60` seconds when `ss` strictly exceeds 60 seconds, else nothing.
/// Exactly 60 seconds is not carried.
pub open spec fn sec_carry(ss: int) -> int {
    if ss > 60 * SUBSEC {
        ss / (60 * SUBSEC)
    } else {
        0
    }
}

/// The seconds field after carrying: `ss mod 60` seconds when `ss`
/// strictly exceeds 60 seconds, else `ss` untouched.
pub open spec fn sec_rem(ss: int) -> int {
    if ss > 60 * SUBSEC {
        ss % (60 * SUBSEC)
    } else {
        ss
    }
}

/// The minutes value before the minute carry: the given minutes plus the
/// minutes carried out of the seconds.
pub open spec fn min_total(mm: int, ss: int) -> int {
    mm + sec_carry(ss)
}

/// Whole degrees carried out of the minutes: `minutes / 60` when the
/// minutes strictly exceed 60, else nothing. Exactly 60 is not carried.
pub open spec fn min_carry(mm: int, ss: int) -> int {
    if min_total(mm, ss) > 60 {
        min_total(mm, ss) / 60
    } else {
        0
    }
}

/// The minutes field after both carries.
pub open spec fn min_rem(mm: int, ss: int) -> int {
    if min_total(mm, ss) > 60 {
        min_total(mm, ss) % 60
    } else {
        min_total(mm, ss)
    }
}

/// The degrees field after both carries: the degree field itself is never
/// range-checked here.
pub open spec fn deg_total(dd: int, mm: int, ss: int) -> int {
    dd + min_carry(mm, ss)
}

/// The triple that construction from the raw fields `(dd, mm, ss)` yields.
pub open spec fn triple_norm(dd: int, mm: int, ss: int) -> DMSBasic {
    DMSBasic {
        dd: deg_total(dd, mm, ss) as i32,
        mm: min_rem(mm, ss) as u32,
        ss: sec_rem(ss) as i64,
    }
}

impl DMSBasic {
    /// Build a triple, carrying excess weight in the lower fields upward:
    /// seconds strictly over 60 become minutes, minutes strictly over 60
    /// become degrees. Exactly 60 passes through, as do negative seconds.
    pub fn new(dd: i32, mm: u32, ss: i64) -> (t: DMSBasic)
        requires
            i32::MIN <= deg_total(dd as int, mm as int, ss as int) <= i32::MAX,
        ensures
            t == triple_norm(dd as int, mm as int, ss as int),
            t.dd == deg_total(dd as int, mm as int, ss as int),
            t.mm == min_rem(mm as int, ss as int),
            t.ss == sec_rem(ss as int),
    {
        let (mm1, ss1): (u64, i64) = if ss > 60 * SUBSEC {
            proof {
                vstd::arithmetic::div_mod::lemma_div_nonincreasing(ss as int, 60 * SUBSEC as int);
            }
            let s = ss as u64;
            ((mm as u64) + s / ((60 * SUBSEC) as u64), (s % ((60 * SUBSEC) as u64)) as i64)
        } else {
            ((mm as u64), ss)
        };
        proof {
            vstd::arithmetic::div_mod::lemma_div_nonincreasing(mm1 as int, 60);
        }
        let (dd2, mm2): (i64, u64) = if mm1 > 60 {
            ((dd as i64) + (mm1 / 60) as i64, mm1 % 60)
        } else {
            (dd as i64, mm1)
        };
        DMSBasic { dd: dd2 as i32, mm: mm2 as u32, ss: ss1 }
    }
}

/// The remainder of `a` by `b` that keeps the sign of the dividend `a`,
/// as Rust's `%` on signed integers computes it; meaningful for `b > 0`.
pub open spec fn trunc_rem(a: int, b: int) -> int {
    if a >= 0 {
        a % b
    } else {
        -((-a) % b)
    }
}

/// The degree field after range reduction: degrees strictly outside
/// `[-bound, bound]` are replaced by their sign-preserving remainder by
/// `bound`; the boundaries themselves pass through untouched.
pub open spec fn reduce_deg(d: int, bound: int) -> int {
    if d < -bound || d > bound {
        trunc_rem(d, bound)
    } else {
        d
    }
}

/// A (latitude, longitude) coordinate pair in degree/minute/second form.
#[derive(Debug, Clone, Copy, PartialEq, Eq, Structural)]
pub struct DMS {
    /// Latitude: construction reduces the degree field into `[-90, 90]`.
    pub lat: DMSBasic,
    /// Longitude: construction reduces the degree field into `[-180, 180]`.
    pub lon: DMSBasic,
}

/// The pair that construction from two triples yields: each degree field
/// range-reduced, minutes and seconds kept as given.
pub open spec fn pair_norm(lat: DMSBasic, lon: DMSBasic) -> DMS {
    DMS {
        lat: DMSBasic { dd: reduce_deg(lat.dd as int, 90) as i32, mm: lat.mm, ss: lat.ss },
        lon: DMSBasic { dd: reduce_deg(lon.dd as int, 180) as i32, mm: lon.mm, ss: lon.ss },
    }
}

/// Reduce a degree field into `[-b, b]` by a sign-preserving remainder,
/// leaving values already in range (the boundaries included) untouched.
fn reduce(d: i32, b: i32) -> (r: i32)
    requires
        0 < b,
    ensures
        r as int == reduce_deg(d as int, b as int),
{
    if d < -b || d > b {
        if d >= 0 {
            ((d as u32) % (b as u32)) as i32
        } else {
            let m = ((-(d as i64)) as u64) % (b as u64);
            -(m as i32)
        }
    } else {
        d
    }
}

impl DMS {
    /// Build a pair from a latitude and a longitude triple.
    ///
    /// A latitude degree field outside `[-90, 90]` is reduced modulo 90,
    /// a longitude degree field outside `[-180, 180]` modulo 180, each
    /// with a sign-preserving remainder; minutes and seconds are kept as
    /// given, and in-range degree fields pass through untouched.
    pub fn new(lat: DMSBasic, lon: DMSBasic) -> (p: DMS)
        ensures
            p == pair_norm(lat, lon),
            p.lat.dd == reduce_deg(lat.dd as int, 90),
            p.lat.mm == lat.mm,
            p.lat.ss == lat.ss,
            p.lon.dd == reduce_deg(lon.dd as int, 180),
            p.lon.mm == lon.mm,
            p.lon.ss == lon.ss,
    {
        let lat2 = DMSBasic { dd: reduce(lat.dd, 90), mm: lat.mm, ss: lat.ss };
        let lon2 = DMSBasic { dd: reduce(lon.dd, 180), mm: lon.mm, ss: lon.ss };
        DMS { lat: lat2, lon: lon2 }
    }
}

/// The largest coordinate component (in 1e-7 degree units) whose whole
/// degrees still fit the degree field of a triple.
pub const COORD_LIMIT: i64 = 2_147_483_647 * DEG_UNITS;

/// One 1e-7 degree unit is 36 of the 1e-5 arc-second units: a degree is
/// 3600 seconds.
pub const SUBSEC_PER_UNIT: i64 = 36;

/// [`COORD_LIMIT`] expressed in 1e-5 arc-second units.
pub const SUBSEC_LIMIT: i64 = SUBSEC_PER_UNIT * COORD_LIMIT;

/// The whole value a triple stands for, in 1e-5 arc-second units: the
/// sign of the degree field applies to the whole triple, whose minutes
/// and seconds are magnitudes within the degree.
pub open spec fn triple_subsec(t: DMSBasic) -> int {
    if t.dd < 0 {
        -((-(t.dd as int)) * (3600 * SUBSEC) + (t.mm as int) * (60 * SUBSEC) + t.ss)
    } else {
        (t.dd as int) * (3600 * SUBSEC) + (t.mm as int) * (60 * SUBSEC) + t.ss
    }
}

/// Division truncating toward zero, as Rust's `/` on signed integers
/// computes it; meaningful for `b > 0`.
pub open spec fn div_trunc(a: int, b: int) -> int {
    if a >= 0 {
        a / b
    } else {
        -((-a) / b)
    }
}

/// The triple that a whole value of `s` 1e-5 arc-second units decomposes
/// into: a non-negative value cascades out of the seconds field exactly as
/// construction from `(0, 0, s)` does; a negative value takes its
/// magnitude's decomposition with the sign restored on the degree field,
/// or, when the magnitude yields no whole degree, stays entirely in the
/// seconds field so that no sign is lost.
pub open spec fn triple_of_subsec(s: int) -> DMSBasic {
    if s >= 0 {
        triple_norm(0, 0, s)
    } else {
        let t = triple_norm(0, 0, -s);
        if t.dd > 0 {
            DMSBasic { dd: (-(t.dd as int)) as i32, mm: t.mm, ss: t.ss }
        } else {
            DMSBasic { dd: 0, mm: 0, ss: s as i64 }
        }
    }
}

/// The pair that conversion from decimal degrees yields: each component
/// turned into seconds of arc, cascaded into a triple, and the pair built
/// with its range reduction.
pub open spec fn dms_of_coord(c: Coord) -> DMS {
    pair_norm(
        triple_of_subsec(SUBSEC_PER_UNIT * c.lat),
        triple_of_subsec(SUBSEC_PER_UNIT * c.lon),
    )
}

/// The decimal-degree pair that a DMS pair converts to: each triple's
/// whole value in seconds of arc, divided back into degree units with
/// truncation toward zero.
pub open spec fn coord_of_dms(p: DMS) -> Coord {
    Coord {
        lat: div_trunc(triple_subsec(p.lat), SUBSEC_PER_UNIT as int) as i64,
        lon: div_trunc(triple_subsec(p.lon), SUBSEC_PER_UNIT as int) as i64,
    }
}

/// The degrees carried out of a pure seconds value stay within the degree
/// field's range as long as the value itself is bounded by
/// `36 * COORD_LIMIT` seconds units.
proof fn lemma_deg_total_bound(s: int)
    requires
        0 <= s <= SUBSEC_LIMIT,
    ensures
        0 <= deg_total(0, 0, s) <= i32::MAX,
{
    if s > 60 * SUBSEC {
        vstd::arithmetic::div_mod::lemma_div_pos_is_pos(s, 60 * SUBSEC as int);
        if min_total(0, s) > 60 {
            vstd::arithmetic::div_mod::lemma_div_denominator(s, 60 * SUBSEC as int, 60);
            vstd::arithmetic::div_mod::lemma_div_pos_is_pos(s, 3600 * SUBSEC as int);
            vstd::arithmetic::div_mod::lemma_div_is_ordered(s, SUBSEC_LIMIT as int, 3600 * SUBSEC as int);
            vstd::arithmetic::div_mod::lemma_div_by_multiple(i32::MAX as int, 3600 * SUBSEC as int);
            assert(SUBSEC_LIMIT == i32::MAX * (3600 * SUBSEC));
        }
    }
}

/// Decompose a whole value of `s` 1e-5 arc-second units into a triple as
/// [`triple_of_subsec`] states it.
fn subsec_triple(s: i64) -> (t: DMSBasic)
    requires
        -SUBSEC_LIMIT <= s <= SUBSEC_LIMIT,
    ensures
        t == triple_of_subsec(s as int),
{
    if s >= 0 {
        proof {
            lemma_deg_total_bound(s as int);
        }
        DMSBasic::new(0, 0, s)
    } else {
        proof {
            lemma_deg_total_bound(-s as int);
        }
        let t = DMSBasic::new(0, 0, -s);
        if t.dd > 0 {
            DMSBasic { dd: -t.dd, mm: t.mm, ss: t.ss }
        } else {
            DMSBasic { dd: 0, mm: 0, ss: s }
        }
    }
}

/// The decimal-degree units a single triple converts to, truncating
/// toward zero.
fn triple_units(t: &DMSBasic) -> (u: i64)
    ensures
        u as int == div_trunc(triple_subsec(*t), SUBSEC_PER_UNIT as int),
{
    proof {
        assert(3600 * SUBSEC == 360_000_000);
        assert(60 * SUBSEC == 6_000_000);
    }
    let mag_dd: i128 = if t.dd < 0 {
        -(t.dd as i128)
    } else {
        t.dd as i128
    };
    let sum: i128 = mag_dd * 360_000_000 + (t.mm as i128) * 6_000_000 + (t.ss as i128);
    let total: i128 = if t.dd < 0 {
        -sum
    } else {
        sum
    };
    proof {
        let mag: int = if total >= 0 {
            total as int
        } else {
            -total as int
        };
        vstd::arithmetic::div_mod::lemma_div_pos_is_pos(mag, 36);
        vstd::arithmetic::div_mod::lemma_div_is_ordered(mag, 10_100_000_000_000_000_000, 36);
    }
    let units: i128 = if total >= 0 {
        total / 36
    } else {
        -((-total) / 36)
    };
    units as i64
}

impl DMS {
    /// Convert decimal degrees to degree/minute/second form: each
    /// component is multiplied by 3600 into seconds of arc, cascaded into
    /// a triple out of the seconds field, and the pair is built with its
    /// range reduction.
    pub fn from_coord(c: Coord) -> (p: DMS)
        requires
            -COORD_LIMIT <= c.lat <= COORD_LIMIT,
            -COORD_LIMIT <= c.lon <= COORD_LIMIT,
        ensures
            p == dms_of_coord(c),
    {
        proof {
            assert(SUBSEC_PER_UNIT == 36);
            assert(SUBSEC_LIMIT == 36 * COORD_LIMIT);
        }
        let lat = subsec_triple(SUBSEC_PER_UNIT * c.lat);
        let lon = subsec_triple(SUBSEC_PER_UNIT * c.lon);
        DMS::new(lat, lon)
    }

    /// Convert this pair to decimal degrees: the sign of each degree field
    /// applies to its whole triple, and the division back into degree
    /// units truncates toward zero.
    pub fn to_coord(&self) -> (c: Coord)
        ensures
            c == coord_of_dms(*self),
    {
        Coord { lat: triple_units(&self.lat), lon: triple_units(&self.lon) }
    }

    /// Convert a UTM grid reference by routing through its geographic
    /// coordinate; no direct shortcut exists.
    pub fn from_utm(u: Utm) -> (p: DMS)
        requires
            -COORD_LIMIT <= u.coord.lat <= COORD_LIMIT,
            -COORD_LIMIT <= u.coord.lon <= COORD_LIMIT,
        ensures
            p == dms_of_coord(u.coord),
    {
        let c = u.to_coord();
        DMS::from_coord(c)
    }

    /// Convert an MGRS grid reference by routing through its geographic
    /// coordinate; no direct shortcut exists.
    pub fn from_mgrs(m: Mgrs) -> (p: DMS)
        requires
            -COORD_LIMIT <= m.coord.lat <= COORD_LIMIT,
            -COORD_LIMIT <= m.coord.lon <= COORD_LIMIT,
        ensures
            p == dms_of_coord(m.coord),
    {
        let c = m.to_coord();
        DMS::from_coord(c)
    }
}

/// The textual form of the seconds field: the numeral of the whole
/// seconds, a fractional part with its trailing zeros dropped when there
/// is one, and a leading minus sign when the field is negative.
pub open spec fn secs_chars(ss: int) -> Seq<char> {
    let sign = if ss < 0 {
        seq!['-']
    } else {
        Seq::<char>::empty()
    };
    let mag = if ss < 0 {
        -ss
    } else {
        ss
    };
    let whole = dec_seq((mag / (SUBSEC as int)) as nat);
    let frac = mag % (SUBSEC as int);
    if frac == 0 {
        sign + whole
    } else {
        sign + whole + seq!['.'] + frac_seq(frac as nat, 5)
    }
}

/// The textual form of a triple: `<|dd|>°<mm>'<ss>"`. The degree sign is
/// dropped here; the pair re-introduces it as a hemisphere letter.
pub open spec fn triple_chars(t: DMSBasic) -> Seq<char> {
    let mag_dd = if t.dd < 0 {
        -(t.dd as int)
    } else {
        t.dd as int
    };
    dec_seq(mag_dd as nat) + seq!['°'] + dec_seq(t.mm as nat) + seq!['\''] + secs_chars(t.ss as int)
        + seq!['"']
}

/// The hemisphere letter of a latitude degree field: `N` when it is
/// non-negative (zero included), `S` when it is strictly negative.
pub open spec fn lat_hemisphere(dd: int) -> char {
    if dd >= 0 {
        'N'
    } else {
        'S'
    }
}

/// The hemisphere letter of a longitude degree field: `E` when it is
/// non-negative (zero included), `W` when it is strictly negative.
pub open spec fn lon_hemisphere(dd: int) -> char {
    if dd >= 0 {
        'E'
    } else {
        'W'
    }
}

/// The textual form of a pair: `<lat><N|S>, <lon><E|W>`.
pub open spec fn pair_chars(p: DMS) -> Seq<char> {
    triple_chars(p.lat) + seq![lat_hemisphere(p.lat.dd as int)] + seq![',', ' ']
        + triple_chars(p.lon) + seq![lon_hemisphere(p.lon.dd as int)]
}

impl DMSBasic {
    /// Render as `<|dd|>°<mm>'<ss>"`: the degree field's absolute value,
    /// then minutes, then seconds with any fractional part's trailing
    /// zeros dropped.
    pub fn render(&self) -> (s: String)
        ensures
            s@ == triple_chars(*self),
    {
        proof {
            assert(SUBSEC == 100_000);
            reveal_strlit("°");
            reveal_strlit("'");
            reveal_strlit("-");
            reveal_strlit(".");
            reveal_strlit("\"");
            assert("°"@ =~= seq!['°']);
            assert("'"@ =~= seq!['\'']);
            assert("-"@ =~= seq!['-']);
            assert("."@ =~= seq!['.']);
            assert("\""@ =~= seq!['"']);
        }
        let mag_dd: u64 = if self.dd < 0 {
            (-(self.dd as i64)) as u64
        } else {
            self.dd as u64
        };
        let mut s = fmt_u64(mag_dd);
        s.append("°");
        s.append(fmt_u64(self.mm as u64).as_str());
        s.append("'");
        if self.ss < 0 {
            s.append("-");
        }
        let mag_ss: u64 = if self.ss < 0 {
            (-(self.ss as i128)) as u64
        } else {
            self.ss as u64
        };
        let whole: u64 = mag_ss / (SUBSEC as u64);
        let frac: u64 = mag_ss % (SUBSEC as u64);
        s.append(fmt_u64(whole).as_str());
        if frac != 0 {
            s.append(".");
            s.append(fmt_frac(frac, 5).as_str());
        }
        s.append("\"");
        proof {
            assert(s@ =~= triple_chars(*self));
        }
        s
    }
}

impl DMS {
    /// Render as `<lat><N|S>, <lon><E|W>`: each triple's text with a
    /// hemisphere letter for the sign of its degree field; a degree field
    /// of exactly zero takes the positive hemisphere.
    pub fn render(&self) -> (s: String)
        ensures
            s@ == pair_chars(*self),
    {
        proof {
            reveal_strlit("N");
            reveal_strlit("S");
            reveal_strlit("E");
            reveal_strlit("W");
            reveal_strlit(", ");
            assert("N"@ =~= seq!['N']);
            assert("S"@ =~= seq!['S']);
            assert("E"@ =~= seq!['E']);
            assert("W"@ =~= seq!['W']);
            assert(", "@ =~= seq![',', ' ']);
        }
        let mut s = self.lat.render();
        if self.lat.dd >= 0 {
            s.append("N");
        } else {
            s.append("S");
        }
        s.append(", ");
        s.append(self.lon.render().as_str());
        if self.lon.dd >= 0 {
            s.append("E");
        } else {
            s.append("W");
        }
        proof {
            assert(s@ =~= pair_chars(*self));
        }
        s
    }
}

/// Positive carry, seconds to minutes: a triple built with seconds
/// strictly over 60 ends with seconds in `[0, 60)` and its minutes
/// increased by the whole minutes held in the seconds field. Stated for
/// inputs whose increased minutes do not overflow into the degrees in
/// turn; there the minute carry takes over and the degree field grows
/// instead.
pub proof fn lemma_carry_seconds_to_minutes(dd: int, mm: int, ss: int)
    requires
        i32::MIN <= dd <= i32::MAX,
        0 <= mm <= u32::MAX,
        ss <= i64::MAX,
        ss > 60 * SUBSEC,
        mm + ss / (60 * SUBSEC) <= 60,
    ensures
        0 <= triple_norm(dd, mm, ss).ss < 60 * SUBSEC,
        triple_norm(dd, mm, ss).mm == mm + ss / (60 * SUBSEC),
        triple_norm(dd, mm, ss).dd == dd,
{
    vstd::arithmetic::div_mod::lemma_div_pos_is_pos(ss, 60 * SUBSEC as int);
}

/// Positive carry, minutes to degrees: a triple built with minutes
/// strictly over 60 (and seconds that carry nothing of their own) ends
/// with minutes in `[0, 60)` and its degrees increased by the whole
/// sixties of the minutes field.
pub proof fn lemma_carry_minutes_to_degrees(dd: int, mm: int, ss: int)
    requires
        i32::MIN <= dd,
        0 <= mm <= u32::MAX,
        i64::MIN <= ss <= 60 * SUBSEC,
        mm > 60,
        dd + mm / 60 <= i32::MAX,
    ensures
        0 <= triple_norm(dd, mm, ss).mm < 60,
        triple_norm(dd, mm, ss).dd == dd + mm / 60,
        triple_norm(dd, mm, ss).ss == ss,
{
    vstd::arithmetic::div_mod::lemma_div_pos_is_pos(mm, 60);
}

/// Boundary non-normalization and degree pass-through: seconds of at
/// most 60 and minutes of at most 60 — the boundaries 60 and 60.0
/// themselves included, the comparison being strict — pass through
/// construction untouched, as do negative seconds; the degree field,
/// which construction never constrains, is retained verbatim however far
/// outside ±180 it lies.
pub proof fn lemma_no_carry(dd: int, mm: int, ss: int)
    requires
        i32::MIN <= dd <= i32::MAX,
        0 <= mm <= 60,
        i64::MIN <= ss <= 60 * SUBSEC,
    ensures
        triple_norm(dd, mm, ss) == (DMSBasic { dd: dd as i32, mm: mm as u32, ss: ss as i64 }),
{
}

/// Degree pass-through in general: whenever the minutes, after any carry
/// out of the seconds, do not overflow in turn, the degree field keeps
/// exactly the value it was given.
pub proof fn lemma_degree_pass_through(dd: int, mm: int, ss: int)
    requires
        i32::MIN <= dd <= i32::MAX,
        0 <= mm,
        min_total(mm, ss) <= 60,
    ensures
        triple_norm(dd, mm, ss).dd == dd,
{
}

/// Latitude/longitude range reduction: a degree field strictly outside
/// `[-bound, bound]` is reduced to a remainder that keeps the sign of
/// the dividend and lies strictly inside the bound; the boundaries
/// themselves, and everything within them, pass through untouched.
pub proof fn lemma_range_reduction(d: int, bound: int)
    requires
        0 < bound,
    ensures
        -bound <= d <= bound ==> reduce_deg(d, bound) == d,
        (d < -bound || d > bound) ==> -bound < reduce_deg(d, bound) < bound,
        d >= 0 ==> reduce_deg(d, bound) >= 0,
        d <= 0 ==> reduce_deg(d, bound) <= 0,
{
}

/// Decomposing a whole value in 1e-5 arc-second units into a triple
/// loses nothing: the triple stands for exactly the value decomposed,
/// and its degree magnitude is bounded by the value's own.
proof fn lemma_decompose_exact(s: int)
    requires
        -SUBSEC_LIMIT <= s <= SUBSEC_LIMIT,
    ensures
        triple_subsec(triple_of_subsec(s)) == s,
        (triple_of_subsec(s).dd as int) * (3600 * SUBSEC)
            <= (if s < 0 { -s } else { s }),
        -((triple_of_subsec(s).dd as int) * (3600 * SUBSEC))
            <= (if s < 0 { -s } else { s }),
{
    assert(SUBSEC == 100_000);
    let mag: int = if s < 0 {
        -s
    } else {
        s
    };
    lemma_deg_total_bound(mag);
    if mag > 60 * SUBSEC {
        let q = mag / (60 * SUBSEC as int);
        let r = mag % (60 * SUBSEC as int);
        vstd::arithmetic::div_mod::lemma_fundamental_div_mod(mag, 60 * SUBSEC as int);
        vstd::arithmetic::div_mod::lemma_div_pos_is_pos(mag, 60 * SUBSEC as int);
        if q > 60 {
            vstd::arithmetic::div_mod::lemma_fundamental_div_mod(q, 60);
            vstd::arithmetic::div_mod::lemma_div_pos_is_pos(q, 60);
        }
    }
}

/// Round-trip precision: converting decimal degrees to
/// degree/minute/second form and back returns the coordinate exactly,
/// for any latitude within ±90 degrees and longitude within ±180. The
/// fixed-point model loses nothing on this path, which is well within
/// the 0.01 seconds of arc the conversion promises.
pub proof fn lemma_round_trip(c: Coord)
    requires
        -90 * DEG_UNITS <= c.lat <= 90 * DEG_UNITS,
        -180 * DEG_UNITS <= c.lon <= 180 * DEG_UNITS,
    ensures
        coord_of_dms(dms_of_coord(c)) == c,
{
    assert(SUBSEC == 100_000);
    assert(DEG_UNITS == 10_000_000);
    assert(SUBSEC_PER_UNIT == 36);
    lemma_decompose_exact(36 * c.lat);
    lemma_decompose_exact(36 * c.lon);
    let tlat = triple_of_subsec(36 * c.lat);
    let tlon = triple_of_subsec(36 * c.lon);
    assert(-90 <= tlat.dd <= 90);
    assert(-180 <= tlon.dd <= 180);
    assert(dms_of_coord(c).lat == tlat);
    assert(dms_of_coord(c).lon == tlon);
    if c.lat >= 0 {
        vstd::arithmetic::div_mod::lemma_div_by_multiple(c.lat as int, 36);
        assert((c.lat as int) * 36 == 36 * c.lat);
    } else {
        vstd::arithmetic::div_mod::lemma_div_by_multiple(-c.lat as int, 36);
        assert((-c.lat as int) * 36 == -(36 * c.lat));
    }
    if c.lon >= 0 {
        vstd::arithmetic::div_mod::lemma_div_by_multiple(c.lon as int, 36);
        assert((c.lon as int) * 36 == 36 * c.lon);
    } else {
        vstd::arithmetic::div_mod::lemma_div_by_multiple(-c.lon as int, 36);
        assert((-c.lon as int) * 36 == -(36 * c.lon));
    }
}

/// Hemisphere rendering: the latitude letter, which follows the latitude
/// triple's text, is `N` exactly when the latitude degree field is
/// non-negative (zero renders the positive hemisphere) and `S`
/// otherwise; the longitude letter, which ends the string, is `E`
/// exactly when the longitude degree field is non-negative and `W`
/// otherwise.
pub proof fn lemma_hemisphere_rendering(p: DMS)
    ensures
        pair_chars(p).len() > 0,
        pair_chars(p).last() == (if p.lon.dd >= 0 { 'E' } else { 'W' }),
        pair_chars(p)[triple_chars(p.lat).len() as int]
            == (if p.lat.dd >= 0 { 'N' } else { 'S' }),
{
}

} // verus!
