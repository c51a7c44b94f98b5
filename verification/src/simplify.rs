use vstd::prelude::*;
use vstd::arithmetic::mul::lemma_mul_nonnegative;
use crate::plane::{Line, Point};

verus! {

/// Coordinate magnitude up to which the simplifier's integer geometry is
/// free of overflow; plane points produced by projection onto any grid of at
/// most this size lie well within it.
pub const COORD_LIMIT: i32 = 1000000;

/// Whether a plane point lies within the simplifier's coordinate range.
pub open spec fn coord_bounded(p: Point) -> bool {
    -COORD_LIMIT <= p.x <= COORD_LIMIT && -COORD_LIMIT <= p.y <= COORD_LIMIT
}

/// Twice the signed area of the triangle `(from, to, point)`: zero exactly
/// when the three points are collinear, and proportional to the distance
/// from `point` to the line through `from` and `to`.
pub open spec fn cross_of(from: Point, to: Point, point: Point) -> int {
    (to.x - from.x) * (point.y - from.y) - (to.y - from.y) * (point.x - from.x)
}

/// Squared length of the segment from `from` to `to` in the plane.
pub open spec fn seg_len2(from: Point, to: Point) -> int {
    (to.x - from.x) * (to.x - from.x) + (to.y - from.y) * (to.y - from.y)
}

/// Whether `point` may be merged into the open segment `(from, to)`: either
/// the segment is degenerate (identical endpoints are trivially mergeable),
/// or the perpendicular distance from `point` to the line through `from` and
/// `to` is at most `distance`. The comparison is exact: it squares both
/// sides of `|cross| / |seg| <= distance`.
pub open spec fn can_merge_spec(from: Point, to: Point, point: Point, distance: int) -> bool {
    seg_len2(from, to) == 0 || cross_of(from, to, point) * cross_of(from, to, point) <= distance
        * distance * seg_len2(from, to)
}

/// Decide whether `point` may be merged into the open segment `(from, to)`
/// under the given distance threshold.
pub fn can_merge_segment_with_point(from: Point, to: Point, point: Point, distance: i32) -> (r:
    bool)
    requires
        distance >= 0,
        coord_bounded(from),
        coord_bounded(to),
        coord_bounded(point),
    ensures
        r == can_merge_spec(from, to, point, distance as int),
{
    let vx: i128 = to.x as i128 - from.x as i128;
    let vy: i128 = to.y as i128 - from.y as i128;
    let wx: i128 = point.x as i128 - from.x as i128;
    let wy: i128 = point.y as i128 - from.y as i128;
    assert(0 <= vx * vx <= 4000000000000 && 0 <= vy * vy <= 4000000000000 && -4000000000000 <= vx
        * wy <= 4000000000000 && -4000000000000 <= vy * wx <= 4000000000000) by (nonlinear_arith)
        requires
            -2000000 <= vx <= 2000000,
            -2000000 <= vy <= 2000000,
            -2000000 <= wx <= 2000000,
            -2000000 <= wy <= 2000000,
    ;
    let len2: i128 = vx * vx + vy * vy;
    if len2 == 0 {
        return true;
    }
    let cross: i128 = vx * wy - vy * wx;
    assert(0 <= cross * cross <= 64000000000000000000000000) by (nonlinear_arith)
        requires
            -8000000000000 <= cross <= 8000000000000,
    ;
    let c2: i128 = cross * cross;
    let d: i128 = distance as i128;
    assert(0 <= d * d <= 0x4000000000000000) by (nonlinear_arith)
        requires
            0 <= d <= 0x7FFFFFFF,
    ;
    let d2: i128 = d * d;
    assert(0 <= d2 * len2 <= 0x4000000000000000i128 * 8000000000000i128) by (nonlinear_arith)
        requires
            0 <= d2 <= 0x4000000000000000,
            0 < len2 <= 8000000000000,
    ;
    let bound: i128 = d2 * len2;
    c2 <= bound
}

/// The tail of the simplification pass: points of `s` from position `i` on
/// are folded into the open segment `(anchor, last)`; a point that merges
/// replaces `last`, one that does not emits `last` and opens a new segment.
/// The final `last` is always emitted, so the input's last point is kept.
pub open spec fn simplify_rec(s: Seq<Point>, anchor: Point, last: Point, i: int, d: int) -> Seq<
    Point,
> decreases s.len() - i,
{
    if i >= s.len() {
        seq![last]
    } else if can_merge_spec(anchor, last, s[i], d) {
        simplify_rec(s, anchor, s[i], i + 1, d)
    } else {
        seq![last] + simplify_rec(s, last, s[i], i + 1, d)
    }
}

/// The simplified form of a point sequence under distance threshold `d`:
/// lines of at most two points are returned unchanged, longer ones keep
/// their first point and run the merging pass over the rest.
pub open spec fn simplify_spec(s: Seq<Point>, d: int) -> Seq<Point> {
    if s.len() <= 2 {
        s
    } else {
        seq![s[0]] + simplify_rec(s, s[0], s[1], 2, d)
    }
}

/// Reduce a line's point count by dropping interior points that merge into
/// their running segment under the distance threshold. The result is exactly
/// the merging pass described by `simplify_spec`.
pub fn simplify_line(line: &Line, distance: i32) -> (r: Line)
    requires
        distance >= 0,
        forall|i: int| 0 <= i < line.points@.len() ==> coord_bounded(#[trigger] line.points@[i]),
    ensures
        r.points@ == simplify_spec(line.points@, distance as int),
{
    let ghost s = line.points@;
    let ghost d = distance as int;
    let n: usize = line.points.len();
    if n <= 2 {
        let mut points: Vec<Point> = Vec::new();
        let mut i: usize = 0;
        while i < n
            invariant
                0 <= i <= n,
                n == s.len(),
                s == line.points@,
                points@ == s.subrange(0, i as int),
            decreases n - i,
        {
            points.push(line.points[i]);
            proof {
                assert(points@ =~= s.subrange(0, i + 1));
            }
            i = i + 1;
        }
        proof {
            assert(points@ =~= s);
        }
        return Line { points };
    }
    let mut result: Vec<Point> = Vec::new();
    result.push(line.points[0]);
    let mut anchor: Point = line.points[0];
    let mut last: Point = line.points[1];
    let mut i: usize = 2;
    proof {
        assert(result@ =~= seq![s[0]]);
    }
    while i < n
        invariant
            2 <= i <= n,
            n == s.len(),
            2 < n,
            s == line.points@,
            d == distance as int,
            distance >= 0,
            forall|j: int| 0 <= j < s.len() ==> coord_bounded(#[trigger] s[j]),
            coord_bounded(anchor),
            coord_bounded(last),
            result@ + simplify_rec(s, anchor, last, i as int, d) == simplify_spec(s, d),
        decreases n - i,
    {
        let p: Point = line.points[i];
        if can_merge_segment_with_point(anchor, last, p, distance) {
            last = p;
        } else {
            let ghost prev = result@;
            result.push(last);
            proof {
                assert(result@ =~= prev + seq![last]);
                assert((prev + seq![last]) + simplify_rec(s, last, s[i as int], i + 1, d) =~= prev
                    + (seq![last] + simplify_rec(s, last, s[i as int], i + 1, d)));
            }
            anchor = last;
            last = p;
        }
        i = i + 1;
    }
    let ghost prev = result@;
    result.push(last);
    proof {
        assert(result@ =~= prev + seq![last]);
    }
    Line { points: result }
}

/// A square is never negative.
proof fn lemma_sq_nonneg(a: int)
    ensures
        a * a >= 0,
{
    if a >= 0 {
        lemma_mul_nonnegative(a, a);
    } else {
        lemma_mul_nonnegative(-a, -a);
        assert((-a) * (-a) == a * a) by (nonlinear_arith);
    }
}

/// Squared segment lengths are never negative.
proof fn lemma_seg_len2_nonneg(from: Point, to: Point)
    ensures
        seg_len2(from, to) >= 0,
{
    lemma_sq_nonneg(to.x - from.x);
    lemma_sq_nonneg(to.y - from.y);
}

/// Shape of the merging pass: it emits at least one point and at most one
/// per remaining input point, and its final point is the input's last point.
proof fn lemma_rec_shape(s: Seq<Point>, anchor: Point, last: Point, i: int, d: int)
    requires
        2 <= i <= s.len(),
    ensures
        1 <= simplify_rec(s, anchor, last, i, d).len() <= s.len() - i + 1,
        simplify_rec(s, anchor, last, i, d).last() == (if i < s.len() {
            s[s.len() - 1]
        } else {
            last
        }),
    decreases s.len() - i,
{
    if i < s.len() {
        if can_merge_spec(anchor, last, s[i], d) {
            lemma_rec_shape(s, anchor, s[i], i + 1, d);
        } else {
            lemma_rec_shape(s, last, s[i], i + 1, d);
        }
    }
}

/// The simplified line is never longer than the input, is never empty, and
/// keeps the input's first and last points.
pub proof fn lemma_simplify_keeps_endpoints(s: Seq<Point>, d: int)
    requires
        s.len() >= 1,
    ensures
        1 <= simplify_spec(s, d).len() <= s.len(),
        simplify_spec(s, d)[0] == s[0],
        simplify_spec(s, d).last() == s.last(),
{
    if s.len() > 2 {
        lemma_rec_shape(s, s[0], s[1], 2, d);
    }
}

/// Whether every point of the sequence lies on the line through its first
/// two (distinct) points: each triangle over the first point and two later
/// points has zero area.
pub open spec fn collinear_from_start(s: Seq<Point>) -> bool {
    forall|j: int, k: int| 1 <= j < k < s.len() ==> cross_of(s[0], s[j], s[k]) == 0
}

proof fn lemma_rec_collinear(s: Seq<Point>, i: int, d: int)
    requires
        2 <= i <= s.len(),
        d >= 0,
        collinear_from_start(s),
    ensures
        simplify_rec(s, s[0], s[i - 1], i, d) == seq![s[s.len() - 1]],
    decreases s.len() - i,
{
    if i >= s.len() {
        assert(seq![s[i - 1]] =~= seq![s[s.len() - 1]]);
    } else {
        let c = cross_of(s[0], s[i - 1], s[i]);
        let l2 = seg_len2(s[0], s[i - 1]);
        assert(c == 0);
        lemma_seg_len2_nonneg(s[0], s[i - 1]);
        assert(c * c == 0) by (nonlinear_arith)
            requires
                c == 0,
        ;
        lemma_sq_nonneg(d);
        lemma_mul_nonnegative(d * d, l2);
        assert(can_merge_spec(s[0], s[i - 1], s[i], d));
        lemma_rec_collinear(s, i + 1, d);
    }
}

/// Simplifying a perfectly straight line keeps exactly its two endpoints.
pub proof fn lemma_simplify_collinear(s: Seq<Point>, d: int)
    requires
        s.len() >= 2,
        d >= 0,
        collinear_from_start(s),
    ensures
        simplify_spec(s, d) == seq![s[0], s[s.len() - 1]],
{
    if s.len() == 2 {
        assert(s =~= seq![s[0], s[s.len() - 1]]);
    } else {
        lemma_rec_collinear(s, 2, d);
        assert(seq![s[0]] + seq![s[s.len() - 1]] =~= seq![s[0], s[s.len() - 1]]);
    }
}

proof fn lemma_rec_no_merge(s: Seq<Point>, i: int, d: int)
    requires
        2 <= i <= s.len(),
        forall|t: int| 2 <= t < s.len() ==> !can_merge_spec(s[t - 2], s[t - 1], #[trigger] s[t], d),
    ensures
        simplify_rec(s, s[i - 2], s[i - 1], i, d) == s.subrange(i - 1, s.len() as int),
    decreases s.len() - i,
{
    if i >= s.len() {
        assert(seq![s[i - 1]] =~= s.subrange(i - 1, s.len() as int));
    } else {
        assert(!can_merge_spec(s[i - 2], s[i - 1], s[i], d));
        lemma_rec_no_merge(s, i + 1, d);
        assert(seq![s[i - 1]] + s.subrange(i, s.len() as int) =~= s.subrange(
            i - 1,
            s.len() as int,
        ));
    }
}

/// A line on which no point merges into its running segment is returned
/// unchanged: count and order are preserved.
pub proof fn lemma_simplify_no_merge(s: Seq<Point>, d: int)
    requires
        forall|t: int| 2 <= t < s.len() ==> !can_merge_spec(s[t - 2], s[t - 1], #[trigger] s[t], d),
    ensures
        simplify_spec(s, d) == s,
{
    if s.len() > 2 {
        lemma_rec_no_merge(s, 2, d);
        assert(seq![s[0]] + s.subrange(1, s.len() as int) =~= s);
    }
}

} // verus!
