//! Points, rectangles, and the geometry the service relies on: inclusive
//! bounding-box containment and great-circle (haversine) distance, computed
//! in fixed-point integer arithmetic.

use vstd::prelude::*;

use vstd::arithmetic::div_mod::lemma_div_is_ordered;

use crate::trig;

verus! {

/// A position on the sphere. Latitude and longitude are fixed-point
/// integers in units of 1e-7 degrees; equality is by exact pair.
#[derive(Clone, Copy, PartialEq, Eq, Structural, Hash, Debug)]
pub struct Point {
    pub latitude: i32,
    pub longitude: i32,
}

/// An axis-aligned rectangle given by two corner points. The corners need
/// not be normalized: `lo` may lie on any side of `hi`.
#[derive(Clone, Copy, PartialEq, Eq, Structural, Hash, Debug)]
pub struct Rectangle {
    pub lo: Point,
    pub hi: Point,
}

/// A latitude within +/-90 degrees and a longitude within +/-180 degrees,
/// in 1e-7 degree units.
pub open spec fn valid_point(p: Point) -> bool {
    &&& -900_000_000 <= p.latitude <= 900_000_000
    &&& -1_800_000_000 <= p.longitude <= 1_800_000_000
}

pub open spec fn min_i(a: int, b: int) -> int {
    if a <= b {
        a
    } else {
        b
    }
}

pub open spec fn max_i(a: int, b: int) -> int {
    if a <= b {
        b
    } else {
        a
    }
}

/// Containment in the rectangle once its corners are normalized, borders
/// included.
pub open spec fn spec_in_range(p: Point, r: Rectangle) -> bool {
    &&& min_i(r.lo.longitude as int, r.hi.longitude as int) <= p.longitude as int
        <= max_i(r.lo.longitude as int, r.hi.longitude as int)
    &&& min_i(r.lo.latitude as int, r.hi.latitude as int) <= p.latitude as int
        <= max_i(r.lo.latitude as int, r.hi.latitude as int)
}

/// The same rectangle written with its corners exchanged.
pub open spec fn spec_swapped(r: Rectangle) -> Rectangle {
    Rectangle { lo: r.hi, hi: r.lo }
}

/// Whether `p` lies within the bounding box of `r`, borders included. The
/// corners of `r` are normalized here, so their order does not matter.
pub fn in_range(p: Point, r: Rectangle) -> (b: bool)
    ensures
        b == spec_in_range(p, r),
{
    let left: i32 = if r.lo.longitude <= r.hi.longitude {
        r.lo.longitude
    } else {
        r.hi.longitude
    };
    let right: i32 = if r.lo.longitude <= r.hi.longitude {
        r.hi.longitude
    } else {
        r.lo.longitude
    };
    let bottom: i32 = if r.lo.latitude <= r.hi.latitude {
        r.lo.latitude
    } else {
        r.hi.latitude
    };
    let top: i32 = if r.lo.latitude <= r.hi.latitude {
        r.hi.latitude
    } else {
        r.lo.latitude
    };
    left <= p.longitude && p.longitude <= right && bottom <= p.latitude && p.latitude <= top
}

/// Containment does not depend on which corner of the rectangle was given
/// first: exchanging the corners leaves the bounding box unchanged.
pub proof fn lemma_in_range_corner_swap(p: Point, r: Rectangle)
    ensures
        spec_in_range(p, r) == spec_in_range(p, spec_swapped(r)),
{
}

pub open spec fn abs_i(x: int) -> int {
    if x >= 0 {
        x
    } else {
        -x
    }
}

/// The absolute difference of two integers.
pub open spec fn adiff(a: int, b: int) -> int {
    if a >= b {
        a - b
    } else {
        b - a
    }
}

/// Half of a coordinate difference (1e-7 degree units), as an angle in
/// radians scaled by 1e9. One coordinate unit is pi / 180 * 1e-7 radians,
/// so across the two scales the factor is pi / 1.8, which is
/// 1_745_329_252 over 1e9.
pub open spec fn spec_half_angle9(diff7: int) -> int {
    diff7 / 2 * 1_745_329_252 / 1_000_000_000
}

/// A latitude (1e-7 degree units) as a nonnegative angle scaled by 1e9.
pub open spec fn spec_lat_angle9(lat7: int) -> int {
    abs_i(lat7) * 1_745_329_252 / 1_000_000_000
}

/// Folds an angle in [0, pi] into [0, pi/2], where the sine is the same.
pub open spec fn spec_folded9(h: int) -> int {
    if h > 1_570_796_327 {
        3_141_592_654 - h
    } else {
        h
    }
}

/// The haversine square term: sin^2 of half the latitude difference plus
/// cos(lat1) * cos(lat2) * sin^2 of half the longitude difference, scaled
/// by 1e18 and clamped to one (the exact value never exceeds one; the
/// clamp caps the fixed-point rounding).
pub open spec fn spec_hav_a18(p1: Point, p2: Point) -> int {
    let sp = trig::spec_sin9(spec_half_angle9(adiff(p1.latitude as int, p2.latitude as int)));
    let sl = trig::spec_sin9(
        spec_folded9(spec_half_angle9(adiff(p1.longitude as int, p2.longitude as int))),
    );
    let c1 = trig::spec_cos9(spec_lat_angle9(p1.latitude as int));
    let c2 = trig::spec_cos9(spec_lat_angle9(p2.latitude as int));
    let a_raw = sp * sp + (c1 * c2 / 1_000_000_000) * (sl * sl / 1_000_000_000);
    if a_raw > 1_000_000_000_000_000_000 {
        1_000_000_000_000_000_000
    } else {
        a_raw
    }
}

/// The central angle (scaled by 1e9) for a haversine square term:
/// 2 * asin(sqrt(a)), taken through the complement when a exceeds one
/// half so the arcsine argument stays small.
pub open spec fn spec_central9(a18: int) -> int {
    if a18 > 500_000_000_000_000_000 {
        let t = 2 * trig::spec_asin9(trig::spec_isqrt(1_000_000_000_000_000_000 - a18));
        if t > 3_141_592_654 {
            0
        } else {
            3_141_592_654 - t
        }
    } else {
        2 * trig::spec_asin9(trig::spec_isqrt(a18))
    }
}

/// Great-circle distance in whole meters on a sphere of radius 6371 km,
/// saturating at 20_015_087 (more than half the circumference, never
/// reached).
pub open spec fn spec_distance(p1: Point, p2: Point) -> int {
    let d = 6_371_000 * spec_central9(spec_hav_a18(p1, p2)) / 1_000_000_000;
    if d > 20_015_087 {
        20_015_087
    } else {
        d
    }
}

/// Haversine great-circle distance between two points, truncated to whole
/// meters. Deterministic and pure: equal coordinate pairs always give the
/// same distance.
pub fn distance(p1: Point, p2: Point) -> (d: u64)
    requires
        valid_point(p1),
        valid_point(p2),
    ensures
        d as int == spec_distance(p1, p2),
        d <= 20_015_087,
{
    let lat1: i64 = p1.latitude as i64;
    let lat2: i64 = p2.latitude as i64;
    let lng1: i64 = p1.longitude as i64;
    let lng2: i64 = p2.longitude as i64;
    let dphi7: u64 = if lat1 >= lat2 {
        (lat1 - lat2) as u64
    } else {
        (lat2 - lat1) as u64
    };
    let dlam7: u64 = if lng1 >= lng2 {
        (lng1 - lng2) as u64
    } else {
        (lng2 - lng1) as u64
    };
    proof {
        assert(dphi7 as int == adiff(p1.latitude as int, p2.latitude as int));
        assert(dlam7 as int == adiff(p1.longitude as int, p2.longitude as int));
        lemma_div_is_ordered(dphi7 as int / 2 * 1_745_329_252, 900_000_000int * 1_745_329_252, 1_000_000_000);
        lemma_div_is_ordered(dlam7 as int / 2 * 1_745_329_252, 1_800_000_000int * 1_745_329_252, 1_000_000_000);
    }
    let hphi9: u64 = dphi7 / 2 * 1_745_329_252 / 1_000_000_000;
    let hlam9: u64 = dlam7 / 2 * 1_745_329_252 / 1_000_000_000;
    let hlam_fold: u64 = if hlam9 > 1_570_796_327 {
        3_141_592_654 - hlam9
    } else {
        hlam9
    };
    let alat1: u64 = (if lat1 >= 0 {
        lat1
    } else {
        -lat1
    }) as u64;
    let alat2: u64 = (if lat2 >= 0 {
        lat2
    } else {
        -lat2
    }) as u64;
    proof {
        lemma_div_is_ordered(alat1 as int * 1_745_329_252, 900_000_000int * 1_745_329_252, 1_000_000_000);
        lemma_div_is_ordered(alat2 as int * 1_745_329_252, 900_000_000int * 1_745_329_252, 1_000_000_000);
    }
    let a1_9: u64 = alat1 * 1_745_329_252 / 1_000_000_000;
    let a2_9: u64 = alat2 * 1_745_329_252 / 1_000_000_000;
    let sp: u64 = trig::sin9(hphi9);
    let sl: u64 = trig::sin9(hlam_fold);
    let c1: u64 = trig::cos9(a1_9);
    let c2: u64 = trig::cos9(a2_9);
    proof {
        trig::lemma_mul_le(sp as int, sp as int, 1_000_000_000, 1_000_000_000);
        trig::lemma_mul_le(sl as int, sl as int, 1_000_000_000, 1_000_000_000);
        trig::lemma_mul_le(c1 as int, c2 as int, 1_000_000_000, 1_000_000_000);
        lemma_div_is_ordered(
            (sl as int) * (sl as int),
            1_000_000_000_000_000_000,
            1_000_000_000,
        );
        lemma_div_is_ordered(
            (c1 as int) * (c2 as int),
            1_000_000_000_000_000_000,
            1_000_000_000,
        );
    }
    let sphi2: u64 = sp * sp;
    let slam2: u64 = sl * sl / 1_000_000_000;
    let cc: u64 = c1 * c2 / 1_000_000_000;
    proof {
        trig::lemma_mul_le(cc as int, slam2 as int, 1_000_000_000, 1_000_000_000);
    }
    let cross: u64 = cc * slam2;
    let a_raw: u64 = sphi2 + cross;
    let a18: u64 = if a_raw > 1_000_000_000_000_000_000 {
        1_000_000_000_000_000_000
    } else {
        a_raw
    };
    proof {
        assert(a18 as int == spec_hav_a18(p1, p2));
    }
    let c9: u64 = if a18 > 500_000_000_000_000_000 {
        let b18: u64 = 1_000_000_000_000_000_000 - a18;
        let z: u64 = trig::isqrt(b18);
        proof {
            trig::lemma_sq_le_half_scale(z as int, b18 as int);
        }
        let t: u64 = 2 * trig::asin9(z);
        if t > 3_141_592_654 {
            0
        } else {
            3_141_592_654 - t
        }
    } else {
        let z: u64 = trig::isqrt(a18);
        proof {
            trig::lemma_sq_le_half_scale(z as int, a18 as int);
        }
        2 * trig::asin9(z)
    };
    proof {
        assert(c9 as int == spec_central9(a18 as int));
        lemma_div_is_ordered(6_371_000 * (c9 as int), 20_015_086_798_634_000, 1_000_000_000);
    }
    let draw: u64 = 6_371_000 * c9 / 1_000_000_000;
    if draw > 20_015_087 {
        20_015_087
    } else {
        draw
    }
}

/// Distance is symmetric: the haversine term only reads the absolute
/// coordinate differences and the product of the two latitude cosines.
pub proof fn lemma_distance_symmetric(p1: Point, p2: Point)
    ensures
        spec_distance(p1, p2) == spec_distance(p2, p1),
{
    let c1 = trig::spec_cos9(spec_lat_angle9(p1.latitude as int));
    let c2 = trig::spec_cos9(spec_lat_angle9(p2.latitude as int));
    assert(c1 * c2 == c2 * c1) by (nonlinear_arith);
    assert(spec_hav_a18(p1, p2) == spec_hav_a18(p2, p1));
}

} // verus!
