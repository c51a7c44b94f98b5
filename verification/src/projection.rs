use vstd::prelude::*;
use vstd::arithmetic::div_mod::{lemma_basic_div, lemma_div_is_ordered, lemma_div_multiples_vanish};
use vstd::arithmetic::mul::lemma_mul_inequality;
use crate::error::NetError;
use crate::plane::Point;

verus! {

// Geographic coordinates are handled as integers in units of 10^-5 degrees
// (about one meter of resolution at these latitudes): the value is the
// degree measure scaled by 10^5 and truncated toward zero. The supported
// bounding box is longitude [-7, 10] degrees and latitude [40, 52] degrees.
pub const LON_MIN: i32 = -700000;

pub const LON_MAX: i32 = 1000000;

pub const LAT_MIN: i32 = 4000000;

pub const LAT_MAX: i32 = 5200000;

/// Default extent of the square output grid, in grid units per axis.
pub const DEFAULT_GRID_SIZE: i32 = 1300;

/// Linear mapping of `pos` from the closed interval between `from` and `to`
/// onto `[0, size]`, truncating the quotient. When `to < from` the interval
/// is reversed: the bounds are swapped and `pos` is re-derived relative to
/// the swapped interval, so both endpoints still map exactly to `0` and
/// `size`.
pub open spec fn normalize_spec(from: int, to: int, size: int, pos: int) -> int {
    if to < from {
        ((from - pos) * size) / (from - to)
    } else {
        ((pos - from) * size) / (to - from)
    }
}

/// Whether a scaled coordinate pair lies inside the supported geographic
/// bounding box.
pub open spec fn in_bounds(lon: int, lat: int) -> bool {
    LON_MIN <= lon <= LON_MAX && LAT_MIN <= lat <= LAT_MAX
}

/// Elevation level of a plane point: whole hundreds of meters, sign
/// discarded, fractions truncated.
pub open spec fn elevation_level(elevation: int) -> int {
    (if elevation < 0 { -elevation } else { elevation }) / 100
}

/// The plane point that an in-bounds scaled coordinate projects to on a grid
/// of the given size. Longitude maps ascending onto `x`; latitude maps with
/// the bounds in descending order onto `y`, because the plane's vertical
/// axis grows opposite to latitude.
pub open spec fn project_spec(lon: int, lat: int, elevation: int, size: int) -> Point {
    Point {
        x: normalize_spec(LON_MIN as int, LON_MAX as int, size, lon) as i32,
        y: normalize_spec(LAT_MAX as int, LAT_MIN as int, size, lat) as i32,
        z: elevation_level(elevation) as i32,
    }
}

/// The normalized value always lies in `[0, size]` when `pos` lies between
/// the bounds.
pub proof fn lemma_normalize_range(from: int, to: int, size: int, pos: int)
    requires
        from != to,
        size >= 0,
        from < to ==> from <= pos <= to,
        to < from ==> to <= pos <= from,
    ensures
        0 <= normalize_spec(from, to, size, pos) <= size,
{
    let (delta, dp) = if to < from {
        (from - to, from - pos)
    } else {
        (to - from, pos - from)
    };
    lemma_mul_inequality(0, dp, size);
    lemma_div_is_ordered(0, dp * size, delta);
    lemma_basic_div(0, delta);
    lemma_mul_inequality(dp, delta, size);
    lemma_div_is_ordered(dp * size, delta * size, delta);
    lemma_div_multiples_vanish(size, delta);
}

/// Endpoint exactness: whichever way round the interval is given, its first
/// bound maps to `0` and its second bound maps to `size`.
pub proof fn lemma_normalize_endpoints(from: int, to: int, size: int)
    requires
        from != to,
        size >= 0,
    ensures
        normalize_spec(from, to, size, from) == 0,
        normalize_spec(from, to, size, to) == size,
{
    let delta = if to < from { from - to } else { to - from };
    lemma_basic_div(0, delta);
    lemma_div_multiples_vanish(size, delta);
}

/// Normalize `pos` from the closed interval between `from` and `to` (either
/// bound may be the larger) onto `[0, size]`. A zero-width interval is
/// reported as a degenerate-interval error.
pub fn normalize(from: i32, to: i32, size: i32, pos: i32) -> (r: Result<i32, NetError>)
    requires
        size >= 0,
        from < to ==> from <= pos <= to,
        to < from ==> to <= pos <= from,
    ensures
        (r is Ok) <==> from != to,
        r matches Ok(v) ==> v == normalize_spec(from as int, to as int, size as int, pos as int),
        r matches Ok(v) ==> 0 <= v <= size,
        from == to ==> r == Err::<i32, NetError>(NetError::DegenerateInterval { from, to }),
{
    if from == to {
        return Err(NetError::DegenerateInterval { from, to });
    }
    let delta: u64;
    let dp: u64;
    if to < from {
        delta = (from as i64 - to as i64) as u64;
        dp = (from as i64 - pos as i64) as u64;
    } else {
        delta = (to as i64 - from as i64) as u64;
        dp = (pos as i64 - from as i64) as u64;
    }
    assert(dp * (size as u64) <= 0xFFFF_FFFFu64 * 0x7FFF_FFFFu64) by (nonlinear_arith)
        requires
            dp <= 0xFFFF_FFFFu64,
            0 <= size <= 0x7FFF_FFFFi32,
    ;
    let num: u64 = dp * (size as u64);
    let q: u64 = num / delta;
    proof {
        lemma_normalize_range(from as int, to as int, size as int, pos as int);
    }
    Ok(q as i32)
}

/// Project a scaled geographic coordinate onto a square grid of the given
/// size. Out-of-box coordinates are rejected with an out-of-bounds error
/// carrying the offending pair; in-box coordinates always yield a point.
pub fn project(lon: i32, lat: i32, elevation: i32, size: i32) -> (r: Result<Point, NetError>)
    requires
        size >= 0,
    ensures
        (r is Ok) <==> in_bounds(lon as int, lat as int),
        r matches Ok(p) ==> p == project_spec(lon as int, lat as int, elevation as int, size as int),
        !in_bounds(lon as int, lat as int) ==> r == Err::<Point, NetError>(
            NetError::OutOfBounds { lon, lat },
        ),
{
    if lon < LON_MIN || lon > LON_MAX || lat < LAT_MIN || lat > LAT_MAX {
        return Err(NetError::OutOfBounds { lon, lat });
    }
    let x = match normalize(LON_MIN, LON_MAX, size, lon) {
        Ok(v) => v,
        Err(e) => { return Err(e) },
    };
    let y = match normalize(LAT_MAX, LAT_MIN, size, lat) {
        Ok(v) => v,
        Err(e) => { return Err(e) },
    };
    let magnitude: u64 = if elevation < 0 {
        (-(elevation as i64)) as u64
    } else {
        elevation as u64
    };
    let z: i32 = (magnitude / 100) as i32;
    Ok(Point { x, y, z })
}

/// Project a scaled geographic coordinate onto the default grid.
pub fn geo_shape_coordinate_to_point(lon: i32, lat: i32, elevation: i32) -> (r: Result<
    Point,
    NetError,
>)
    ensures
        (r is Ok) <==> in_bounds(lon as int, lat as int),
        r matches Ok(p) ==> p == project_spec(
            lon as int,
            lat as int,
            elevation as int,
            DEFAULT_GRID_SIZE as int,
        ),
        !in_bounds(lon as int, lat as int) ==> r == Err::<Point, NetError>(
            NetError::OutOfBounds { lon, lat },
        ),
{
    project(lon, lat, elevation, DEFAULT_GRID_SIZE)
}

/// Projection is monotonic across the box: a larger longitude never gives a
/// smaller `x`, and a larger latitude never gives a larger `y` (the vertical
/// axis is flipped relative to latitude).
pub proof fn lemma_project_monotonic(
    lon1: int,
    lat1: int,
    e1: int,
    lon2: int,
    lat2: int,
    e2: int,
    size: int,
)
    requires
        in_bounds(lon1, lat1),
        in_bounds(lon2, lat2),
        0 <= size <= i32::MAX,
    ensures
        lon1 <= lon2 ==> project_spec(lon1, lat1, e1, size).x <= project_spec(
            lon2,
            lat2,
            e2,
            size,
        ).x,
        lat1 <= lat2 ==> project_spec(lon1, lat1, e1, size).y >= project_spec(
            lon2,
            lat2,
            e2,
            size,
        ).y,
{
    lemma_normalize_range(LON_MIN as int, LON_MAX as int, size, lon1);
    lemma_normalize_range(LON_MIN as int, LON_MAX as int, size, lon2);
    lemma_normalize_range(LAT_MAX as int, LAT_MIN as int, size, lat1);
    lemma_normalize_range(LAT_MAX as int, LAT_MIN as int, size, lat2);
    if lon1 <= lon2 {
        lemma_mul_inequality(lon1 - LON_MIN, lon2 - LON_MIN, size);
        lemma_div_is_ordered(
            (lon1 - LON_MIN) * size,
            (lon2 - LON_MIN) * size,
            LON_MAX - LON_MIN,
        );
    }
    if lat1 <= lat2 {
        lemma_mul_inequality(LAT_MAX - lat2, LAT_MAX - lat1, size);
        lemma_div_is_ordered(
            (LAT_MAX - lat2) * size,
            (LAT_MAX - lat1) * size,
            LAT_MAX - LAT_MIN,
        );
    }
}

} // verus!
