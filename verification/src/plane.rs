use vstd::prelude::*;

verus! {

/// A point on the integer output plane: grid coordinates plus a scaled
/// elevation level.
#[derive(Clone, Copy, Debug, PartialEq, Eq, Structural)]
pub struct Point {
    pub x: i32,
    pub y: i32,
    pub z: i32,
}

impl Point {
    pub fn new(x: i32, y: i32, z: i32) -> (r: Point)
        ensures
            r == (Point { x, y, z }),
    {
        Point { x, y, z }
    }
}

/// An ordered sequence of plane points encoding the physical path of a track.
#[derive(Debug)]
pub struct Line {
    pub points: Vec<Point>,
}

/// The aggregate of all built lines, plus standalone points such as station
/// markers. Lines and points are kept in insertion order.
#[derive(Debug)]
pub struct Network {
    pub lines: Vec<Line>,
    pub points: Vec<Point>,
}

impl Network {
    pub fn new() -> (r: Network)
        ensures
            r.lines@.len() == 0,
            r.points@.len() == 0,
    {
        Network { lines: Vec::new(), points: Vec::new() }
    }

    pub fn get_line_count(&self) -> (r: usize)
        ensures
            r == self.lines@.len(),
    {
        self.lines.len()
    }

    pub fn add_line(&mut self, line: Line)
        ensures
            final(self).lines@ == old(self).lines@.push(line),
            final(self).points@ == old(self).points@,
    {
        self.lines.push(line);
    }

    pub fn add_point(&mut self, point: Point)
        ensures
            final(self).points@ == old(self).points@.push(point),
            final(self).lines@ == old(self).lines@,
    {
        self.points.push(point);
    }
}

} // verus!
