use vstd::prelude::*;
use crate::error::NetError;
use crate::plane::{Line, Point};
use crate::projection::{
    geo_shape_coordinate_to_point, in_bounds, project_spec, DEFAULT_GRID_SIZE,
};

verus! {

/// A geographic coordinate in scaled integer form: longitude and latitude in
/// units of 10^-5 degrees, elevation in whole meters, all truncated toward
/// zero.
#[derive(Clone, Copy, Debug, PartialEq, Eq, Structural)]
pub struct GeoCoord {
    pub lon: i32,
    pub lat: i32,
    pub elevation: i32,
}

/// Whether a coordinate lies inside the supported geographic box.
pub open spec fn coord_in_bounds(c: GeoCoord) -> bool {
    in_bounds(c.lon as int, c.lat as int)
}

/// The plane point a coordinate projects to on the default grid.
pub open spec fn coord_point(c: GeoCoord) -> Point {
    project_spec(c.lon as int, c.lat as int, c.elevation as int, DEFAULT_GRID_SIZE as int)
}

/// Whether every coordinate of a sequence lies inside the supported box.
pub open spec fn seq_in_bounds(s: Seq<GeoCoord>) -> bool {
    forall|j: int| 0 <= j < s.len() ==> coord_in_bounds(s[j])
}

/// Build a line by projecting each coordinate in order. The build fails on
/// the first out-of-box coordinate, propagating the projector's error; no
/// partial line is returned.
pub fn geo_shape_to_line(coords: &Vec<GeoCoord>) -> (r: Result<Line, NetError>)
    ensures
        (r is Ok) <==> seq_in_bounds(coords@),
        r matches Ok(l) ==> l.points@.len() == coords@.len() && (forall|j: int|
            0 <= j < coords@.len() ==> l.points@[j] == coord_point(coords@[j])),
        r matches Err(e) ==> exists|j: int|
            0 <= j < coords@.len() && (forall|k: int| 0 <= k < j ==> coord_in_bounds(coords@[k]))
                && !coord_in_bounds(#[trigger] coords@[j]) && e == (NetError::OutOfBounds {
                lon: coords@[j].lon,
                lat: coords@[j].lat,
            }),
{
    let mut points: Vec<Point> = Vec::new();
    let mut i: usize = 0;
    while i < coords.len()
        invariant
            0 <= i <= coords@.len(),
            points@.len() == i,
            forall|j: int| 0 <= j < i ==> coord_in_bounds(coords@[j]),
            forall|j: int| 0 <= j < i ==> points@[j] == coord_point(coords@[j]),
        decreases coords@.len() - i,
    {
        let c = coords[i];
        match geo_shape_coordinate_to_point(c.lon, c.lat, c.elevation) {
            Ok(p) => {
                points.push(p);
            },
            Err(e) => {
                return Err(e);
            },
        }
        i = i + 1;
    }
    Ok(Line { points })
}

/// Build one line per coordinate sequence, in order. The build is atomic: a
/// failure in any part fails the whole multi-line build, propagating the
/// error of the first out-of-box coordinate.
pub fn geo_shape_to_multi_line(multi_coords: &Vec<Vec<GeoCoord>>) -> (r: Result<
    Vec<Line>,
    NetError,
>)
    ensures
        (r is Ok) <==> (forall|i: int|
            0 <= i < multi_coords@.len() ==> seq_in_bounds(#[trigger] multi_coords@[i]@)),
        r matches Ok(ls) ==> ls@.len() == multi_coords@.len() && (forall|i: int, j: int|
            0 <= i < multi_coords@.len() && 0 <= j < multi_coords@[i]@.len()
                ==> #[trigger] ls@[i].points@[j] == coord_point(multi_coords@[i]@[j])) && (
        forall|i: int|
            0 <= i < multi_coords@.len() ==> #[trigger] ls@[i].points@.len()
                == multi_coords@[i]@.len()),
        r matches Err(e) ==> exists|i: int, j: int|
            0 <= i < multi_coords@.len() && 0 <= j < multi_coords@[i]@.len() && (forall|k: int|
                0 <= k < i ==> seq_in_bounds(#[trigger] multi_coords@[k]@)) && (forall|k: int|
                0 <= k < j ==> coord_in_bounds(multi_coords@[i]@[k])) && !coord_in_bounds(
                #[trigger] multi_coords@[i]@[j],
            ) && e == (NetError::OutOfBounds {
                lon: multi_coords@[i]@[j].lon,
                lat: multi_coords@[i]@[j].lat,
            }),
{
    let mut lines: Vec<Line> = Vec::new();
    let mut i: usize = 0;
    while i < multi_coords.len()
        invariant
            0 <= i <= multi_coords@.len(),
            lines@.len() == i,
            forall|k: int| 0 <= k < i ==> seq_in_bounds(#[trigger] multi_coords@[k]@),
            forall|k: int, j: int|
                0 <= k < i && 0 <= j < multi_coords@[k]@.len() ==> #[trigger] lines@[k].points@[j]
                    == coord_point(multi_coords@[k]@[j]),
            forall|k: int|
                0 <= k < i ==> #[trigger] lines@[k].points@.len() == multi_coords@[k]@.len(),
        decreases multi_coords@.len() - i,
    {
        match geo_shape_to_line(&multi_coords[i]) {
            Ok(l) => {
                let ghost prev = lines@;
                proof {
                    assert(l.points@.len() == multi_coords@[i as int]@.len());
                }
                lines.push(l);
                proof {
                    assert(lines@ == prev.push(l));
                    assert forall|k: int| 0 <= k < i + 1 implies #[trigger] lines@[k].points@.len()
                        == multi_coords@[k]@.len() by {
                        if k < i as int {
                            assert(lines@[k] == prev[k]);
                            assert(prev[k].points@.len() == multi_coords@[k]@.len());
                            assert(lines@[k].points@.len() == multi_coords@[k]@.len());
                        } else {
                            assert(k == i as int);
                            assert(lines@[k] == l);
                            assert(l.points@.len() == multi_coords@[k]@.len());
                            assert(lines@[k].points@.len() == multi_coords@[k]@.len());
                        }
                    }
                    assert forall|k: int, j: int|
                        0 <= k < i + 1 && 0 <= j < multi_coords@[k]@.len()
                            implies #[trigger] lines@[k].points@[j] == coord_point(
                            multi_coords@[k]@[j],
                        ) by {
                        if k < i as int {
                            assert(lines@[k] == prev[k]);
                            assert(prev[k].points@[j] == coord_point(multi_coords@[k]@[j]));
                        } else {
                            assert(lines@[k] == l);
                            assert(l.points@[j] == coord_point(multi_coords@[k]@[j]));
                        }
                    }
                }
            },
            Err(e) => {
                return Err(e);
            },
        }
        i = i + 1;
    }
    Ok(lines)
}

} // verus!
