//! Outlines of rounded rectangles and straight lines.
//!
//! A path is a list of segments over points with 64-bit coordinates, so
//! that any point derived from a node description can be written down; the
//! bounding box of a path is a [`Rect`] only where it fits the coordinate
//! range.

use vstd::prelude::*;
use crate::metrics::Rect;

verus! {

/// A point of an outline.
#[derive(Clone, Copy, Debug, PartialEq, Eq, Structural)]
pub struct Point {
    pub x: i64,
    pub y: i64,
}

/// One step of an outline.
#[derive(Clone, Copy, Debug, PartialEq, Eq, Structural)]
pub enum PathSegment {
    /// Starts a contour at a point.
    MoveTo(Point),
    /// A straight edge to a point.
    LineTo(Point),
    /// A cubic curve with two handles to a point.
    CubicTo(Point, Point, Point),
    /// Closes the contour.
    Close,
}

/// An outline: one contour, in drawing order.
#[derive(Clone, Debug)]
pub struct Outline {
    pub segments: Vec<PathSegment>,
}

/// Half of `v`, rounded towards zero.
pub open spec fn half_spec(v: int) -> int {
    if v >= 0 {
        v / 2
    } else {
        -((-v) / 2)
    }
}

/// The distance of a curve handle from the corner point of a rounded
/// corner with radius `c`: 45 hundredths of the radius, rounded towards
/// zero.
pub open spec fn handle_spec(c: int) -> int {
    if c >= 0 {
        (45 * c) / 100
    } else {
        -((45 * (-c)) / 100)
    }
}

/// Half of `v`, rounded towards zero.
pub fn half(v: i32) -> (r: i32)
    ensures
        r as int == half_spec(v as int),
{
    if v >= 0 {
        v / 2
    } else {
        (-((-(v as i64)) / 2)) as i32
    }
}

/// The handle distance of a corner with radius `c`.
pub fn handle(c: i32) -> (r: i32)
    ensures
        r as int == handle_spec(c as int),
{
    if c >= 0 {
        ((45 * (c as i64)) / 100) as i32
    } else {
        (-((45 * (-(c as i64))) / 100)) as i32
    }
}

/// Whether every point that the segment names lies within the four edges.
pub open spec fn seg_within(s: PathSegment, l: int, t: int, r: int, b: int) -> bool {
    match s {
        PathSegment::MoveTo(p) => l <= p.x <= r && t <= p.y <= b,
        PathSegment::LineTo(p) => l <= p.x <= r && t <= p.y <= b,
        PathSegment::CubicTo(h1, h2, p) => {
            &&& l <= h1.x <= r && t <= h1.y <= b
            &&& l <= h2.x <= r && t <= h2.y <= b
            &&& l <= p.x <= r && t <= p.y <= b
        },
        PathSegment::Close => true,
    }
}

/// Whether the segment names a point with the horizontal coordinate `v`.
pub open spec fn seg_has_x(s: PathSegment, v: int) -> bool {
    match s {
        PathSegment::MoveTo(p) => p.x == v,
        PathSegment::LineTo(p) => p.x == v,
        PathSegment::CubicTo(h1, h2, p) => h1.x == v || h2.x == v || p.x == v,
        PathSegment::Close => false,
    }
}

/// Whether the segment names a point with the vertical coordinate `v`.
pub open spec fn seg_has_y(s: PathSegment, v: int) -> bool {
    match s {
        PathSegment::MoveTo(p) => p.y == v,
        PathSegment::LineTo(p) => p.y == v,
        PathSegment::CubicTo(h1, h2, p) => h1.y == v || h2.y == v || p.y == v,
        PathSegment::Close => false,
    }
}

/// Whether the segment names no point at all.
pub open spec fn seg_pointless(s: PathSegment) -> bool {
    s == PathSegment::Close
}

/// Whether the four values are the least and greatest coordinates among
/// all points of the segments, curve handles included.
pub open spec fn is_extent(segs: Seq<PathSegment>, l: int, t: int, r: int, b: int) -> bool {
    &&& forall|i: int| 0 <= i < segs.len() ==> seg_within(#[trigger] segs[i], l, t, r, b)
    &&& exists|i: int| 0 <= i < segs.len() && seg_has_x(#[trigger] segs[i], l)
    &&& exists|i: int| 0 <= i < segs.len() && seg_has_y(#[trigger] segs[i], t)
    &&& exists|i: int| 0 <= i < segs.len() && seg_has_x(#[trigger] segs[i], r)
    &&& exists|i: int| 0 <= i < segs.len() && seg_has_y(#[trigger] segs[i], b)
}

/// Whether `e` holds the extent of the segments, left, top, right and
/// bottom, and the four make a rectangle.
pub open spec fn extent_ok(segs: Seq<PathSegment>, e: (int, int, int, int)) -> bool {
    is_extent(segs, e.0, e.1, e.2, e.3) && Rect::edges_ok(e.0, e.1, e.2, e.3)
}

/// The bounding box of all points of the segments, curve handles
/// included; none where they name no point or the box leaves the
/// coordinate range.
pub open spec fn bounds_of(segs: Seq<PathSegment>) -> Option<Rect> {
    if exists|e: (int, int, int, int)| #[trigger] extent_ok(segs, e) {
        let e = choose|e: (int, int, int, int)| #[trigger] extent_ok(segs, e);
        Some(Rect { left: e.0 as i32, top: e.1 as i32, right: e.2 as i32, bottom: e.3 as i32 })
    } else {
        None
    }
}

/// A path has at most one extent.
pub proof fn lemma_extent_unique(
    segs: Seq<PathSegment>,
    l: int,
    t: int,
    r: int,
    b: int,
    l2: int,
    t2: int,
    r2: int,
    b2: int,
)
    requires
        is_extent(segs, l, t, r, b),
        is_extent(segs, l2, t2, r2, b2),
    ensures
        l == l2,
        t == t2,
        r == r2,
        b == b2,
{
    let i = choose|i: int| 0 <= i < segs.len() && seg_has_x(#[trigger] segs[i], l);
    assert(seg_within(segs[i], l2, t2, r2, b2));
    let i = choose|i: int| 0 <= i < segs.len() && seg_has_x(#[trigger] segs[i], l2);
    assert(seg_within(segs[i], l, t, r, b));
    let i = choose|i: int| 0 <= i < segs.len() && seg_has_y(#[trigger] segs[i], t);
    assert(seg_within(segs[i], l2, t2, r2, b2));
    let i = choose|i: int| 0 <= i < segs.len() && seg_has_y(#[trigger] segs[i], t2);
    assert(seg_within(segs[i], l, t, r, b));
    let i = choose|i: int| 0 <= i < segs.len() && seg_has_x(#[trigger] segs[i], r);
    assert(seg_within(segs[i], l2, t2, r2, b2));
    let i = choose|i: int| 0 <= i < segs.len() && seg_has_x(#[trigger] segs[i], r2);
    assert(seg_within(segs[i], l, t, r, b));
    let i = choose|i: int| 0 <= i < segs.len() && seg_has_y(#[trigger] segs[i], b);
    assert(seg_within(segs[i], l2, t2, r2, b2));
    let i = choose|i: int| 0 <= i < segs.len() && seg_has_y(#[trigger] segs[i], b2);
    assert(seg_within(segs[i], l, t, r, b));
}

/// The segments of one corner: the straight corner point `at` where the
/// radius is zero; else an edge to `enter`, then a curve with the handles
/// `h1` and `h2` to `leave`.
pub open spec fn corner_spec(
    c: int,
    at: Point,
    enter: Point,
    h1: Point,
    h2: Point,
    leave: Point,
) -> Seq<PathSegment> {
    if c == 0 {
        seq![PathSegment::LineTo(at)]
    } else {
        seq![PathSegment::LineTo(enter), PathSegment::CubicTo(h1, h2, leave)]
    }
}

/// A point with the coordinates `x` and `y`.
pub open spec fn pt(x: int, y: int) -> Point {
    Point { x: x as i64, y: y as i64 }
}

/// The outline of the box at `(x, y)` with the extent `(w, h)` and the
/// corner radii `c0` (top left), `c1` (top right), `c2` (bottom right) and
/// `c3` (bottom left).  It starts in the middle of the left edge and runs
/// clockwise: through each corner, and through the middle of each edge.
pub open spec fn rounded_rect_spec(
    x: int,
    y: int,
    w: int,
    h: int,
    c0: int,
    c1: int,
    c2: int,
    c3: int,
) -> Seq<PathSegment> {
    let mid_x = x + half_spec(w);
    let mid_y = y + half_spec(h);
    let max_x = x + w;
    let max_y = y + h;
    let o0 = handle_spec(c0);
    let o1 = handle_spec(c1);
    let o2 = handle_spec(c2);
    let o3 = handle_spec(c3);
    seq![PathSegment::MoveTo(pt(x, mid_y))] + corner_spec(
        c0,
        pt(x, y),
        pt(x, y + c0),
        pt(x, y + o0),
        pt(x + o0, y),
        pt(x + c0, y),
    ) + seq![PathSegment::LineTo(pt(mid_x, y))] + corner_spec(
        c1,
        pt(max_x, y),
        pt(max_x - c1, y),
        pt(max_x - o1, y),
        pt(max_x, y + o1),
        pt(max_x, y + c1),
    ) + seq![PathSegment::LineTo(pt(max_x, mid_y))] + corner_spec(
        c2,
        pt(max_x, max_y),
        pt(max_x, max_y - c2),
        pt(max_x, max_y - o2),
        pt(max_x - o2, max_y),
        pt(max_x - c2, max_y),
    ) + seq![PathSegment::LineTo(pt(mid_x, max_y))] + corner_spec(
        c3,
        pt(x, max_y),
        pt(x + c3, max_y),
        pt(x + o3, max_y),
        pt(x, max_y - o3),
        pt(x, max_y - c3),
    ) + seq![PathSegment::LineTo(pt(x, mid_y)), PathSegment::Close]
}

/// The open path of the straight line between two points.
pub open spec fn line_spec(from: Point, to: Point) -> Seq<PathSegment> {
    seq![PathSegment::MoveTo(from), PathSegment::LineTo(to)]
}

fn push_corner(
    segments: &mut Vec<PathSegment>,
    c: i32,
    at: Point,
    enter: Point,
    h1: Point,
    h2: Point,
    leave: Point,
)
    ensures
        final(segments)@ == old(segments)@ + corner_spec(c as int, at, enter, h1, h2, leave),
{
    if c == 0 {
        segments.push(PathSegment::LineTo(at));
        assert(segments@ =~= old(segments)@ + corner_spec(c as int, at, enter, h1, h2, leave));
    } else {
        segments.push(PathSegment::LineTo(enter));
        segments.push(PathSegment::CubicTo(h1, h2, leave));
        assert(segments@ =~= old(segments)@ + corner_spec(c as int, at, enter, h1, h2, leave));
    }
}

fn push_one(segments: &mut Vec<PathSegment>, s: PathSegment)
    ensures
        final(segments)@ == old(segments)@ + seq![s],
{
    segments.push(s);
    assert(segments@ =~= old(segments)@ + seq![s]);
}

/// Whether all points of the segments lie within the four edges.
pub open spec fn all_within(segs: Seq<PathSegment>, l: int, t: int, r: int, b: int) -> bool {
    forall|i: int| 0 <= i < segs.len() ==> seg_within(#[trigger] segs[i], l, t, r, b)
}

/// Whether some point of the segments has the horizontal coordinate `v`.
pub open spec fn any_has_x(segs: Seq<PathSegment>, v: int) -> bool {
    exists|i: int| 0 <= i < segs.len() && seg_has_x(#[trigger] segs[i], v)
}

/// Whether some point of the segments has the vertical coordinate `v`.
pub open spec fn any_has_y(segs: Seq<PathSegment>, v: int) -> bool {
    exists|i: int| 0 <= i < segs.len() && seg_has_y(#[trigger] segs[i], v)
}

/// What holds of two runs of segments holds of the two put together.
pub proof fn lemma_join(a: Seq<PathSegment>, b: Seq<PathSegment>, box_: (int, int, int, int), v: int)
    ensures
        all_within(a, box_.0, box_.1, box_.2, box_.3) && all_within(
            b,
            box_.0,
            box_.1,
            box_.2,
            box_.3,
        ) ==> all_within(a + b, box_.0, box_.1, box_.2, box_.3),
        any_has_x(a, v) || any_has_x(b, v) ==> any_has_x(a + b, v),
        any_has_y(a, v) || any_has_y(b, v) ==> any_has_y(a + b, v),
{
    let ab = a + b;
    if all_within(a, box_.0, box_.1, box_.2, box_.3) && all_within(
        b,
        box_.0,
        box_.1,
        box_.2,
        box_.3,
    ) {
        assert forall|i: int| 0 <= i < ab.len() implies seg_within(
            #[trigger] ab[i],
            box_.0,
            box_.1,
            box_.2,
            box_.3,
        ) by {
            if i < a.len() {
                assert(ab[i] == a[i]);
            } else {
                assert(ab[i] == b[i - a.len()]);
            }
        }
    }
    if any_has_x(a, v) {
        let i = choose|i: int| 0 <= i < a.len() && seg_has_x(#[trigger] a[i], v);
        assert(ab[i] == a[i]);
    }
    if any_has_x(b, v) {
        let i = choose|i: int| 0 <= i < b.len() && seg_has_x(#[trigger] b[i], v);
        assert(ab[i + a.len()] == b[i]);
    }
    if any_has_y(a, v) {
        let i = choose|i: int| 0 <= i < a.len() && seg_has_y(#[trigger] a[i], v);
        assert(ab[i] == a[i]);
    }
    if any_has_y(b, v) {
        let i = choose|i: int| 0 <= i < b.len() && seg_has_y(#[trigger] b[i], v);
        assert(ab[i + a.len()] == b[i]);
    }
}

/// Whether a corner radius fits a box of the extent `(w, h)`: it is not
/// negative and at most half of either side.
pub open spec fn radius_fits(c: int, w: int, h: int) -> bool {
    0 <= c <= half_spec(w) && c <= half_spec(h)
}

/// The outline of a box whose corner radii fit it stays within the box and
/// touches each of its four edges: the extent of the outline is the box
/// itself.
#[verifier::spinoff_prover]
#[verifier::rlimit(50)]
pub proof fn lemma_rounded_rect_extent(
    x: int,
    y: int,
    w: int,
    h: int,
    c0: int,
    c1: int,
    c2: int,
    c3: int,
)
    requires
        i32::MIN <= x <= i32::MAX,
        i32::MIN <= y <= i32::MAX,
        0 <= w <= i32::MAX,
        0 <= h <= i32::MAX,
        radius_fits(c0, w, h),
        radius_fits(c1, w, h),
        radius_fits(c2, w, h),
        radius_fits(c3, w, h),
    ensures
        is_extent(rounded_rect_spec(x, y, w, h, c0, c1, c2, c3), x, y, x + w, y + h),
        rounded_rect_spec(x, y, w, h, c0, c1, c2, c3).last() == PathSegment::Close,
{
    let mid_x = x + half_spec(w);
    let mid_y = y + half_spec(h);
    let max_x = x + w;
    let max_y = y + h;
    let o0 = handle_spec(c0);
    let o1 = handle_spec(c1);
    let o2 = handle_spec(c2);
    let o3 = handle_spec(c3);
    let bx = (x, y, max_x, max_y);
    lemma_handle_bounds(c0);
    lemma_handle_bounds(c1);
    lemma_handle_bounds(c2);
    lemma_handle_bounds(c3);
    let s0 = seq![PathSegment::MoveTo(pt(x, mid_y))];
    let k0 = corner_spec(
        c0,
        pt(x, y),
        pt(x, y + c0),
        pt(x, y + o0),
        pt(x + o0, y),
        pt(x + c0, y),
    );
    let s1 = seq![PathSegment::LineTo(pt(mid_x, y))];
    let k1 = corner_spec(
        c1,
        pt(max_x, y),
        pt(max_x - c1, y),
        pt(max_x - o1, y),
        pt(max_x, y + o1),
        pt(max_x, y + c1),
    );
    let s2 = seq![PathSegment::LineTo(pt(max_x, mid_y))];
    let k2 = corner_spec(
        c2,
        pt(max_x, max_y),
        pt(max_x, max_y - c2),
        pt(max_x, max_y - o2),
        pt(max_x - o2, max_y),
        pt(max_x - c2, max_y),
    );
    let s3 = seq![PathSegment::LineTo(pt(mid_x, max_y))];
    let k3 = corner_spec(
        c3,
        pt(x, max_y),
        pt(x + c3, max_y),
        pt(x + o3, max_y),
        pt(x, max_y - o3),
        pt(x, max_y - c3),
    );
    let s4 = seq![PathSegment::LineTo(pt(x, mid_y)), PathSegment::Close];
    let all = rounded_rect_spec(x, y, w, h, c0, c1, c2, c3);
    let a1 = s0 + k0;
    let a2 = a1 + s1;
    let a3 = a2 + k1;
    let a4 = a3 + s2;
    let a5 = a4 + k2;
    let a6 = a5 + s3;
    let a7 = a6 + k3;
    let a8 = a7 + s4;
    assert(all == a8);
    assert(all_within(s0, x, y, max_x, max_y) && any_has_x(s0, x)) by {
        assert(seg_has_x(s0[0], x));
    }
    assert(all_within(s1, x, y, max_x, max_y) && any_has_y(s1, y)) by {
        assert(seg_has_y(s1[0], y));
    }
    assert(all_within(s2, x, y, max_x, max_y) && any_has_x(s2, max_x)) by {
        assert(seg_has_x(s2[0], max_x));
    }
    assert(all_within(s3, x, y, max_x, max_y) && any_has_y(s3, max_y)) by {
        assert(seg_has_y(s3[0], max_y));
    }
    assert(all_within(s4, x, y, max_x, max_y));
    lemma_corner_within(
        c0,
        pt(x, y),
        pt(x, y + c0),
        pt(x, y + o0),
        pt(x + o0, y),
        pt(x + c0, y),
        bx,
    );
    lemma_corner_within(
        c1,
        pt(max_x, y),
        pt(max_x - c1, y),
        pt(max_x - o1, y),
        pt(max_x, y + o1),
        pt(max_x, y + c1),
        bx,
    );
    lemma_corner_within(
        c2,
        pt(max_x, max_y),
        pt(max_x, max_y - c2),
        pt(max_x, max_y - o2),
        pt(max_x - o2, max_y),
        pt(max_x - c2, max_y),
        bx,
    );
    lemma_corner_within(
        c3,
        pt(x, max_y),
        pt(x + c3, max_y),
        pt(x + o3, max_y),
        pt(x, max_y - o3),
        pt(x, max_y - c3),
        bx,
    );
    lemma_join(s0, k0, bx, x);
    lemma_join(a1, s1, bx, x);
    lemma_join(a1, s1, bx, y);
    lemma_join(a2, k1, bx, x);
    lemma_join(a2, k1, bx, y);
    lemma_join(a3, s2, bx, x);
    lemma_join(a3, s2, bx, y);
    lemma_join(a3, s2, bx, max_x);
    lemma_join(a4, k2, bx, x);
    lemma_join(a4, k2, bx, y);
    lemma_join(a4, k2, bx, max_x);
    lemma_join(a5, s3, bx, x);
    lemma_join(a5, s3, bx, y);
    lemma_join(a5, s3, bx, max_x);
    lemma_join(a5, s3, bx, max_y);
    lemma_join(a6, k3, bx, x);
    lemma_join(a6, k3, bx, y);
    lemma_join(a6, k3, bx, max_x);
    lemma_join(a6, k3, bx, max_y);
    lemma_join(a7, s4, bx, x);
    lemma_join(a7, s4, bx, y);
    lemma_join(a7, s4, bx, max_x);
    lemma_join(a7, s4, bx, max_y);
    assert(a8.last() == s4[1]);
    assert(all_within(a8, x, y, max_x, max_y));
    assert(any_has_x(a8, x));
    assert(any_has_y(a8, y));
    assert(any_has_x(a8, max_x));
    assert(any_has_y(a8, max_y));
}

/// The handle of a corner lies between the corner point and the end of
/// the curve.
pub proof fn lemma_handle_bounds(c: int)
    requires
        c >= 0,
    ensures
        0 <= handle_spec(c) <= c,
{
}

/// The segments of a corner stay within a box that holds its five points.
pub proof fn lemma_corner_within(
    c: int,
    at: Point,
    enter: Point,
    h1: Point,
    h2: Point,
    leave: Point,
    box_: (int, int, int, int),
)
    requires
        seg_within(PathSegment::LineTo(at), box_.0, box_.1, box_.2, box_.3),
        seg_within(PathSegment::LineTo(enter), box_.0, box_.1, box_.2, box_.3),
        seg_within(PathSegment::CubicTo(h1, h2, leave), box_.0, box_.1, box_.2, box_.3),
    ensures
        all_within(corner_spec(c, at, enter, h1, h2, leave), box_.0, box_.1, box_.2, box_.3),
{
}

/// A closed box outline with square corners has the box as its bounding
/// box, whatever its position and extent.
pub proof fn lemma_square_box_bounds(x: int, y: int, w: int, h: int)
    requires
        i32::MIN <= x <= i32::MAX,
        i32::MIN <= y <= i32::MAX,
        0 <= w <= i32::MAX,
        0 <= h <= i32::MAX,
        Rect::edges_ok(x, y, x + w, y + h),
    ensures
        rounded_rect_spec(x, y, w, h, 0, 0, 0, 0).last() == PathSegment::Close,
        bounds_of(rounded_rect_spec(x, y, w, h, 0, 0, 0, 0)) == Some(
            (Rect { left: x as i32, top: y as i32, right: (x + w) as i32, bottom: (y + h) as i32 }),
        ),
{
    lemma_rounded_rect_extent(x, y, w, h, 0, 0, 0, 0);
    lemma_bounds_from_extent(rounded_rect_spec(x, y, w, h, 0, 0, 0, 0), (x, y, x + w, y + h));
}

/// Segments whose extent makes a rectangle have that rectangle as their
/// bounding box.
pub proof fn lemma_bounds_from_extent(segs: Seq<PathSegment>, e: (int, int, int, int))
    requires
        extent_ok(segs, e),
    ensures
        bounds_of(segs) == Some(
            (Rect { left: e.0 as i32, top: e.1 as i32, right: e.2 as i32, bottom: e.3 as i32 }),
        ),
{
    let c = choose|c: (int, int, int, int)| #[trigger] extent_ok(segs, c);
    lemma_extent_unique(segs, c.0, c.1, c.2, c.3, e.0, e.1, e.2, e.3);
}

/// Whether the segments make one contour that starts at `start` and comes
/// back to it: the first step moves to `start`, the step before the last
/// is an edge to `start`, and the last step closes the contour.
pub open spec fn returns_to_start(segs: Seq<PathSegment>, start: Point) -> bool {
    &&& segs.len() >= 3
    &&& segs[0] == PathSegment::MoveTo(start)
    &&& segs[segs.len() - 2] == PathSegment::LineTo(start)
    &&& segs.last() == PathSegment::Close
}

/// The outline of a box is one closed contour, whatever the box and the
/// corner radii: it starts in the middle of the left side and its last
/// edge returns there.
pub proof fn lemma_rounded_rect_closed(
    x: int,
    y: int,
    w: int,
    h: int,
    c0: int,
    c1: int,
    c2: int,
    c3: int,
)
    ensures
        returns_to_start(
            rounded_rect_spec(x, y, w, h, c0, c1, c2, c3),
            pt(x, y + half_spec(h)),
        ),
{
    let all = rounded_rect_spec(x, y, w, h, c0, c1, c2, c3);
    let start = pt(x, y + half_spec(h));
    let s0 = seq![PathSegment::MoveTo(start)];
    let s4 = seq![PathSegment::LineTo(start), PathSegment::Close];
    let middle = all.subrange(1, all.len() - 2);
    assert(all.len() >= 3);
    assert(all[0] == s0[0]);
    assert(all[all.len() - 2] == s4[0]);
    assert(all[all.len() - 1] == s4[1]);
}

/// The running extent of the points seen so far.
#[derive(Clone, Copy)]
struct Extent {
    seen: bool,
    l: i64,
    t: i64,
    r: i64,
    b: i64,
}

impl Extent {
    /// The extent widened to hold `p` too.
    fn with(self, p: Point) -> (e: Extent)
        ensures
            e.seen,
            !self.seen ==> e.l == p.x && e.r == p.x && e.t == p.y && e.b == p.y,
            self.seen ==> {
                &&& e.l == (if p.x < self.l { p.x } else { self.l })
                &&& e.t == (if p.y < self.t { p.y } else { self.t })
                &&& e.r == (if p.x > self.r { p.x } else { self.r })
                &&& e.b == (if p.y > self.b { p.y } else { self.b })
            },
    {
        if !self.seen {
            Extent { seen: true, l: p.x, t: p.y, r: p.x, b: p.y }
        } else {
            Extent {
                seen: true,
                l: if p.x < self.l { p.x } else { self.l },
                t: if p.y < self.t { p.y } else { self.t },
                r: if p.x > self.r { p.x } else { self.r },
                b: if p.y > self.b { p.y } else { self.b },
            }
        }
    }
}

impl Outline {
    /// Whether the last step closes the contour.
    pub open spec fn spec_closed(&self) -> bool {
        self.segments@.len() > 0 && self.segments@.last() == PathSegment::Close
    }

    /// The outline of a box with rounded corners; see
    /// [`rounded_rect_spec`].
    pub fn rounded_rect(x: i32, y: i32, w: i32, h: i32, c0: i32, c1: i32, c2: i32, c3: i32) -> (r:
        Outline)
        ensures
            r.segments@ == rounded_rect_spec(
                x as int,
                y as int,
                w as int,
                h as int,
                c0 as int,
                c1 as int,
                c2 as int,
                c3 as int,
            ),
            r.spec_closed(),
    {
        let xl: i64 = x as i64;
        let yt: i64 = y as i64;
        let mid_x: i64 = xl + half(w) as i64;
        let mid_y: i64 = yt + half(h) as i64;
        let max_x: i64 = xl + w as i64;
        let max_y: i64 = yt + h as i64;
        let o0: i64 = handle(c0) as i64;
        let o1: i64 = handle(c1) as i64;
        let o2: i64 = handle(c2) as i64;
        let o3: i64 = handle(c3) as i64;
        let r0: i64 = c0 as i64;
        let r1: i64 = c1 as i64;
        let r2: i64 = c2 as i64;
        let r3: i64 = c3 as i64;
        let mut segments: Vec<PathSegment> = Vec::new();
        segments.push(PathSegment::MoveTo(Point { x: xl, y: mid_y }));
        assert(segments@ =~= seq![PathSegment::MoveTo(pt(x as int, mid_y as int))]);
        push_corner(
            &mut segments,
            c0,
            Point { x: xl, y: yt },
            Point { x: xl, y: yt + r0 },
            Point { x: xl, y: yt + o0 },
            Point { x: xl + o0, y: yt },
            Point { x: xl + r0, y: yt },
        );
        push_one(&mut segments, PathSegment::LineTo(Point { x: mid_x, y: yt }));
        push_corner(
            &mut segments,
            c1,
            Point { x: max_x, y: yt },
            Point { x: max_x - r1, y: yt },
            Point { x: max_x - o1, y: yt },
            Point { x: max_x, y: yt + o1 },
            Point { x: max_x, y: yt + r1 },
        );
        push_one(&mut segments, PathSegment::LineTo(Point { x: max_x, y: mid_y }));
        push_corner(
            &mut segments,
            c2,
            Point { x: max_x, y: max_y },
            Point { x: max_x, y: max_y - r2 },
            Point { x: max_x, y: max_y - o2 },
            Point { x: max_x - o2, y: max_y },
            Point { x: max_x - r2, y: max_y },
        );
        push_one(&mut segments, PathSegment::LineTo(Point { x: mid_x, y: max_y }));
        push_corner(
            &mut segments,
            c3,
            Point { x: xl, y: max_y },
            Point { x: xl + r3, y: max_y },
            Point { x: xl + o3, y: max_y },
            Point { x: xl, y: max_y - o3 },
            Point { x: xl, y: max_y - r3 },
        );
        let ghost before = segments@;
        segments.push(PathSegment::LineTo(Point { x: xl, y: mid_y }));
        segments.push(PathSegment::Close);
        assert(segments@ =~= before + seq![
            PathSegment::LineTo(pt(x as int, mid_y as int)),
            PathSegment::Close,
        ]);
        Outline { segments }
    }

    /// The open two-point path of a straight line.
    pub fn line(from: Point, to: Point) -> (r: Outline)
        ensures
            r.segments@ == line_spec(from, to),
            !r.spec_closed(),
    {
        let mut segments: Vec<PathSegment> = Vec::new();
        segments.push(PathSegment::MoveTo(from));
        segments.push(PathSegment::LineTo(to));
        assert(segments@ =~= line_spec(from, to));
        Outline { segments }
    }

    /// The bounding box of all points of the path, curve handles
    /// included; none where the path names no point or the box leaves the
    /// coordinate range.
    pub open spec fn spec_bounds(&self) -> Option<Rect> {
        bounds_of(self.segments@)
    }

    /// The bounding box of the path; see [`Outline::spec_bounds`].
    pub fn bounds(&self) -> (res: Option<Rect>)
        ensures
            res == self.spec_bounds(),
            res.is_some() ==> res.unwrap().wf(),
    {
        let n = self.segments.len();
        let mut e = Extent { seen: false, l: 0, t: 0, r: 0, b: 0 };
        let ghost mut il: int = 0;
        let ghost mut it: int = 0;
        let ghost mut ir: int = 0;
        let ghost mut ib: int = 0;
        let ghost segs = self.segments@;
        let mut i: usize = 0;
        while i < n
            invariant
                0 <= i <= n,
                n == self.segments@.len(),
                segs == self.segments@,
                !e.seen ==> forall|j: int| 0 <= j < i ==> seg_pointless(#[trigger] segs[j]),
                e.seen ==> {
                    &&& 0 <= il < i && seg_has_x(segs[il], e.l as int)
                    &&& 0 <= it < i && seg_has_y(segs[it], e.t as int)
                    &&& 0 <= ir < i && seg_has_x(segs[ir], e.r as int)
                    &&& 0 <= ib < i && seg_has_y(segs[ib], e.b as int)
                    &&& forall|j: int|
                        0 <= j < i ==> seg_within(
                            #[trigger] segs[j],
                            e.l as int,
                            e.t as int,
                            e.r as int,
                            e.b as int,
                        )
                },
            decreases n - i,
        {
            let ghost before = e;
            match self.segments[i] {
                PathSegment::MoveTo(p) => {
                    e = e.with(p);
                },
                PathSegment::LineTo(p) => {
                    e = e.with(p);
                },
                PathSegment::CubicTo(h1, h2, p) => {
                    e = e.with(h1).with(h2).with(p);
                },
                PathSegment::Close => {},
            }
            proof {
                if e.seen {
                    if !before.seen || e.l != before.l {
                        il = i as int;
                    }
                    if !before.seen || e.t != before.t {
                        it = i as int;
                    }
                    if !before.seen || e.r != before.r {
                        ir = i as int;
                    }
                    if !before.seen || e.b != before.b {
                        ib = i as int;
                    }
                }
            }
            i = i + 1;
        }
        if !e.seen {
            assert forall|c: (int, int, int, int)| !#[trigger] extent_ok(segs, c) by {
                if extent_ok(segs, c) {
                    let k = choose|k: int|
                        0 <= k < segs.len() && seg_has_x(#[trigger] segs[k], c.0);
                    assert(seg_pointless(segs[k]));
                }
            }
            return None;
        }
        assert(is_extent(segs, e.l as int, e.t as int, e.r as int, e.b as int));
        assert forall|l: int, t: int, r: int, b: int| #[trigger]
            is_extent(segs, l, t, r, b) implies l == e.l && t == e.t && r == e.r && b == e.b by {
            lemma_extent_unique(segs, l, t, r, b, e.l as int, e.t as int, e.r as int, e.b as int);
        }
        let res = Rect::from_ltrb(e.l, e.t, e.r, e.b);
        proof {
            let w = (e.l as int, e.t as int, e.r as int, e.b as int);
            if Rect::edges_ok(w.0, w.1, w.2, w.3) {
                assert(extent_ok(segs, w));
                let c = choose|c: (int, int, int, int)| #[trigger] extent_ok(segs, c);
                assert(is_extent(segs, c.0, c.1, c.2, c.3));
            } else {
                assert forall|c: (int, int, int, int)| !#[trigger] extent_ok(segs, c) by {
                    if extent_ok(segs, c) {
                        assert(is_extent(segs, c.0, c.1, c.2, c.3));
                    }
                }
            }
        }
        res
    }

    /// Whether the last step closes the contour.
    pub fn is_closed(&self) -> (r: bool)
        ensures
            r == self.spec_closed(),
    {
        let n = self.segments.len();
        if n == 0 {
            false
        } else {
            match self.segments[n - 1] {
                PathSegment::Close => true,
                _ => false,
            }
        }
    }
}

} // verus!
