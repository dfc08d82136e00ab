//! Paints: solid colors and the axis of a linear gradient across a box.

use vstd::prelude::*;
use crate::color::{ColorStop, GradientStopPosition, Rgba, FRACTION_UNITS, UNITS_PER_DEGREE};
use crate::container::Corner;
use crate::metrics::{Position, Size};
use crate::path::{half, half_spec, pt, Point};
use crate::utils::{AppResult, Fault};

verus! {

/// A full turn, in angle units.
pub const FULL_TURN: i32 = 23040;

/// A color stop with its place on the gradient axis as a fraction: the
/// numerator over the denominator, zero at the start of the axis and one at
/// its end.  Stops are kept as given: neither sorted nor forced between
/// zero and one.
#[derive(Clone, Copy, Debug, PartialEq, Eq, Structural)]
pub struct ResolvedStop {
    pub numerator: i64,
    pub denominator: i64,
    pub color: Rgba,
}

/// What a shape is painted with.
#[derive(Debug)]
#[allow(inconsistent_fields)]
pub enum Shader {
    /// One color everywhere.
    SolidColor(Rgba),
    /// A gradient between two points.
    LinearGradient { start: Point, end: Point, stops: Vec<ResolvedStop> },
    /// A gradient across the box at `(x, y)` with the extent `(w, h)`
    /// whose axis is not parallel to a side of the box.  The angle lies
    /// within one turn and is not a multiple of a quarter turn; the end
    /// points of its axis follow from its tangent.
    Oblique { angle: i32, x: i32, y: i32, w: i32, h: i32, stops: Vec<ColorStop> },
}

/// The angle within one turn that points the same way.
pub open spec fn normalize_spec(angle: int) -> int {
    angle % (FULL_TURN as int)
}

/// The end points of the axis of a gradient at a multiple of a quarter
/// turn, across the box at `(x, y)` with the extent `(w, h)`: the middles
/// of two opposite sides.  At zero the axis runs from the bottom side up
/// to the top side, at a quarter turn from the left side to the right
/// side, at half a turn from top to bottom and at three quarters from
/// right to left.
pub open spec fn cardinal_axis(quarter: int, x: int, y: int, w: int, h: int) -> (Point, Point) {
    let cx = x + half_spec(w);
    let cy = y + half_spec(h);
    if quarter == 0 {
        (pt(cx, y + h), pt(cx, y))
    } else if quarter == 1 {
        (pt(x, cy), pt(x + w, cy))
    } else if quarter == 2 {
        (pt(cx, y), pt(cx, y + h))
    } else {
        (pt(x + w, cy), pt(x, cy))
    }
}

/// The length of the axis at a multiple of a quarter turn.
pub open spec fn cardinal_length(quarter: int, w: int, h: int) -> int {
    let side = if quarter == 0 || quarter == 2 {
        h
    } else {
        w
    };
    if side >= 0 {
        side
    } else {
        -side
    }
}

/// A stop with its place as a fraction of an axis `distance` long: a share
/// is kept as it is, a distance is set against the length of the axis.
pub open spec fn resolve_stop(stop: ColorStop, distance: int) -> ResolvedStop {
    match stop.position {
        GradientStopPosition::Percent(p) => ResolvedStop {
            numerator: p as i64,
            denominator: FRACTION_UNITS as i64,
            color: stop.color,
        },
        GradientStopPosition::Pixel(p) => ResolvedStop {
            numerator: p as i64,
            denominator: distance as i64,
            color: stop.color,
        },
    }
}

/// The angle within one turn that points the same way.
pub fn normalize_angle(angle: i32) -> (r: i32)
    ensures
        r as int == normalize_spec(angle as int),
        0 <= r < FULL_TURN,
{
    if angle >= 0 {
        angle % FULL_TURN
    } else {
        let m: i64 = (-(angle as i64)) % (FULL_TURN as i64);
        assert((angle as int) % (FULL_TURN as int) == (if m == 0 {
            0
        } else {
            FULL_TURN as int - m
        })) by (nonlinear_arith)
            requires
                angle < 0,
                m == (-(angle as int)) % (FULL_TURN as int),
                FULL_TURN == 23040,
        ;
        if m == 0 {
            0
        } else {
            (FULL_TURN as i64 - m) as i32
        }
    }
}

/// The stops with their places as fractions of an axis `distance` long, in
/// the order given.
pub fn resolve_stops(colors: &Vec<ColorStop>, distance: i64) -> (r: Vec<ResolvedStop>)
    ensures
        r@.len() == colors@.len(),
        forall|i: int| 0 <= i < colors@.len() ==> r@[i] == resolve_stop(colors@[i], distance as int),
{
    let mut stops: Vec<ResolvedStop> = Vec::new();
    let mut i: usize = 0;
    while i < colors.len()
        invariant
            0 <= i <= colors@.len(),
            stops@.len() == i,
            forall|k: int| 0 <= k < i ==> stops@[k] == resolve_stop(colors@[k], distance as int),
        decreases colors@.len() - i,
    {
        let stop = colors[i];
        let resolved = match stop.position {
            GradientStopPosition::Percent(p) => ResolvedStop {
                numerator: p as i64,
                denominator: FRACTION_UNITS as i64,
                color: stop.color,
            },
            GradientStopPosition::Pixel(p) => ResolvedStop {
                numerator: p as i64,
                denominator: distance,
                color: stop.color,
            },
        };
        stops.push(resolved);
        i = i + 1;
    }
    stops
}

/// Whether the result is the gradient of the given angle, box and stops.
pub open spec fn is_gradient_of(
    shader: Shader,
    angle: int,
    x: int,
    y: int,
    w: int,
    h: int,
    colors: Seq<ColorStop>,
) -> bool {
    let a = normalize_spec(angle);
    let quarter_turn = 90 * (UNITS_PER_DEGREE as int);
    if a % quarter_turn == 0 {
        let q = a / quarter_turn;
        match shader {
            Shader::LinearGradient { start, end, stops } => {
                &&& (start, end) == cardinal_axis(q, x, y, w, h)
                &&& stops@.len() == colors.len()
                &&& forall|i: int|
                    0 <= i < colors.len() ==> stops@[i] == resolve_stop(
                        colors[i],
                        cardinal_length(q, w, h),
                    )
            },
            _ => false,
        }
    } else {
        match shader {
            Shader::Oblique { angle: ra, x: rx, y: ry, w: rw, h: rh, stops } => {
                &&& ra == a
                &&& rx == x
                &&& ry == y
                &&& rw == w
                &&& rh == h
                &&& stops@ == colors
            },
            _ => false,
        }
    }
}

/// The paint of a linear gradient at `angle` across the box at `position`
/// with the extent `size`.
///
/// A box without width or without height has no gradient.  At a multiple
/// of a quarter turn the axis joins the middles of two opposite sides and
/// the stops are resolved against the length of that side; at any other
/// angle the result names the angle, brought within one turn, the box and
/// the stops as given.
pub fn create_linear_gradient(
    angle: i32,
    position: Position,
    size: Size,
    corner: Corner,
    colors: Vec<ColorStop>,
) -> (r: AppResult<Shader>)
    ensures
        match r {
            Ok(shader) => {
                &&& size.spec_width() != 0 && size.spec_height() != 0
                &&& is_gradient_of(
                    shader,
                    angle as int,
                    position.spec_x(),
                    position.spec_y(),
                    size.spec_width(),
                    size.spec_height(),
                    colors@,
                )
            },
            Err(e) => {
                &&& size.spec_width() == 0 || size.spec_height() == 0
                &&& e.reports(Fault::GradientOnEmptyBox)
            },
        },
{
    let x = position.x();
    let y = position.y();
    let w = size.width();
    let h = size.height();
    if w == 0 || h == 0 {
        return Err(Fault::GradientOnEmptyBox.error());
    }
    let a = normalize_angle(angle);
    let quarter_turn: i32 = 90 * UNITS_PER_DEGREE;
    if a % quarter_turn != 0 {
        return Ok(Shader::Oblique { angle: a, x, y, w, h, stops: colors });
    }
    let q = a / quarter_turn;
    let cx: i64 = x as i64 + half(w) as i64;
    let cy: i64 = y as i64 + half(h) as i64;
    let right: i64 = x as i64 + w as i64;
    let bottom: i64 = y as i64 + h as i64;
    let (start, end, side) = if q == 0 {
        (Point { x: cx, y: bottom }, Point { x: cx, y: y as i64 }, h)
    } else if q == 1 {
        (Point { x: x as i64, y: cy }, Point { x: right, y: cy }, w)
    } else if q == 2 {
        (Point { x: cx, y: y as i64 }, Point { x: cx, y: bottom }, h)
    } else {
        (Point { x: right, y: cy }, Point { x: x as i64, y: cy }, w)
    };
    let distance: i64 = if side >= 0 {
        side as i64
    } else {
        -(side as i64)
    };
    let stops = resolve_stops(&colors, distance);
    Ok(Shader::LinearGradient { start, end, stops })
}

/// The axis of a gradient at a multiple of a quarter turn lies on a
/// midline of the box and spans it exactly: at a quarter and at three
/// quarters of a turn its end points lie on the left and right sides, at
/// the same height; at zero and at half a turn on the top and bottom
/// sides, one above the other.
pub proof fn lemma_cardinal_axis_spans_box(quarter: int, x: int, y: int, w: int, h: int)
    requires
        0 <= quarter < 4,
        i32::MIN <= x <= i32::MAX,
        i32::MIN <= y <= i32::MAX,
        i32::MIN <= w <= i32::MAX,
        i32::MIN <= h <= i32::MAX,
    ensures
        ({
            let (start, end) = cardinal_axis(quarter, x, y, w, h);
            &&& quarter == 0 ==> start.x == end.x && start.y - end.y == h && end.y == y
            &&& quarter == 1 ==> start.y == end.y && end.x - start.x == w && start.x == x
            &&& quarter == 2 ==> start.x == end.x && end.y - start.y == h && start.y == y
            &&& quarter == 3 ==> start.y == end.y && start.x - end.x == w && end.x == x
            &&& (quarter == 0 || quarter == 2) ==> start.x == x + half_spec(w)
            &&& (quarter == 1 || quarter == 3) ==> start.y == y + half_spec(h)
        }),
{
}

} // verus!
