//! Straight lines.

use vstd::prelude::*;
use crate::color::Rgba;
use crate::effects::DropShadow;
use crate::graphic::{DrawnLine, Frame};
use crate::metrics::{clamp, clamp_spec, to_pixels, pixels_spec, Position, Rect};
use crate::path::{half, half_spec, line_spec, pt, Outline, Point};
use crate::utils::{AppResult, Fault};

verus! {

/// A stroked line between two points.
#[derive(Clone, Debug)]
pub struct Line {
    pub from: Option<Position>,
    pub to: Option<Position>,
    /// The stroke width.
    pub width: i32,
    pub color: Rgba,
    pub shadow: Option<DropShadow>,
}

impl Default for Line {
    fn default() -> (r: Line)
        ensures
            r.from.is_none(),
            r.to.is_none(),
            r.width == crate::metrics::UNITS_PER_PIXEL,
            r.color == Rgba(0, 0, 0, 255),
            r.shadow.is_none(),
    {
        Line {
            from: None,
            to: None,
            width: crate::metrics::UNITS_PER_PIXEL,
            color: Rgba(0, 0, 0, 255),
            shadow: None,
        }
    }
}

/// One coordinate of an end point: the explicit offset from the origin of
/// the layout bounds, else the origin of the positioning bounds.
pub open spec fn anchor(given: Option<i32>, layout_origin: int, pos_origin: int) -> int {
    match given {
        Some(v) => clamp_spec(v + layout_origin),
        None => pos_origin,
    }
}

/// The horizontal coordinate of an end point that may be left open.
pub open spec fn end_x(p: Option<Position>, frame: &Frame) -> int {
    let given = match p {
        Some(pos) => pos.x,
        None => None,
    };
    anchor(given, frame.layout_bounds.left as int, frame.pos_bounds.left as int)
}

/// The vertical coordinate of an end point that may be left open.
pub open spec fn end_y(p: Option<Position>, frame: &Frame) -> int {
    let given = match p {
        Some(pos) => pos.y,
        None => None,
    };
    anchor(given, frame.layout_bounds.top as int, frame.pos_bounds.top as int)
}

/// The four edges of the box that a stroke of the width `w` between two
/// points occupies.  The stroke reaches half its width to either side of
/// the line: above and below a horizontal line, left and right of a
/// vertical one, and no further than that on both axes for any other.
pub open spec fn stroke_edges(fx: int, fy: int, tx: int, ty: int, w: int) -> (int, int, int, int) {
    let lo_x = if fx <= tx { fx } else { tx };
    let hi_x = if fx <= tx { tx } else { fx };
    let lo_y = if fy <= ty { fy } else { ty };
    let hi_y = if fy <= ty { ty } else { fy };
    let grow = if w > 0 { w } else { 0 };
    let out = half_spec(grow);
    if fy == ty && fx != tx {
        (lo_x, lo_y - out, hi_x, lo_y - out + grow)
    } else if fx == tx && fy != ty {
        (lo_x - out, lo_y, lo_x - out + grow, hi_y)
    } else {
        (lo_x - out, lo_y - out, hi_x - out + grow, hi_y - out + grow)
    }
}

fn resolve(given: Option<i32>, layout_origin: i32, pos_origin: i32) -> (r: i32)
    ensures
        r as int == anchor(given, layout_origin as int, pos_origin as int),
{
    match given {
        Some(v) => clamp(v as i64 + layout_origin as i64),
        None => pos_origin,
    }
}

impl Line {
    /// The resolved start of the line.
    pub fn from(&self, frame: &Frame) -> (r: Position)
        ensures
            r.x == Some(end_x(self.from, frame) as i32),
            r.y == Some(end_y(self.from, frame) as i32),
    {
        let (gx, gy) = match self.from {
            Some(p) => (p.x, p.y),
            None => (None, None),
        };
        Position {
            x: Some(resolve(gx, frame.layout_bounds.left, frame.pos_bounds.left)),
            y: Some(resolve(gy, frame.layout_bounds.top, frame.pos_bounds.top)),
        }
    }

    /// The resolved end of the line.
    pub fn to(&self, frame: &Frame) -> (r: Position)
        ensures
            r.x == Some(end_x(self.to, frame) as i32),
            r.y == Some(end_y(self.to, frame) as i32),
    {
        let (gx, gy) = match self.to {
            Some(p) => (p.x, p.y),
            None => (None, None),
        };
        Position {
            x: Some(resolve(gx, frame.layout_bounds.left, frame.pos_bounds.left)),
            y: Some(resolve(gy, frame.layout_bounds.top, frame.pos_bounds.top)),
        }
    }

    /// The box that the stroked line occupies, where it is a rectangle
    /// within the coordinate range.
    pub open spec fn spec_bounds(&self, frame: &Frame) -> Option<Rect> {
        let e = stroke_edges(
            end_x(self.from, frame),
            end_y(self.from, frame),
            end_x(self.to, frame),
            end_y(self.to, frame),
            self.width as int,
        );
        if Rect::edges_ok(e.0, e.1, e.2, e.3) {
            Some(Rect { left: e.0 as i32, top: e.1 as i32, right: e.2 as i32, bottom: e.3 as i32 })
        } else {
            None
        }
    }

    /// Whether `drawn` is the resolved form of the line.
    pub open spec fn resolves_to(&self, frame: &Frame, drawn: DrawnLine) -> bool {
        let fx = end_x(self.from, frame);
        let fy = end_y(self.from, frame);
        let tx = end_x(self.to, frame);
        let ty = end_y(self.to, frame);
        &&& drawn.path.segments@ == line_spec(pt(fx, fy), pt(tx, ty))
        &&& drawn.width == self.width
        &&& drawn.color == self.color
        &&& drawn.shadow == self.shadow
        &&& drawn.canvas.0 == pixels_spec(clamp_spec(tx + self.width))
        &&& drawn.canvas.1 == pixels_spec(clamp_spec(ty + self.width))
    }

    /// Resolves the line against the bounds it is given: its two end
    /// points, the size of the buffer it is stroked into, and the box it
    /// occupies.  It fails where that box leaves the coordinate range.
    pub fn draw(&self, pos_bounds: Rect, layout_bounds: Rect) -> (r: AppResult<(DrawnLine, Rect)>)
        requires
            pos_bounds.wf(),
            layout_bounds.wf(),
        ensures
            ({
                let frame = Frame {
                    pos_bounds,
                    layout_bounds,
                    children_bounds: Rect { left: 0, top: 0, right: 0, bottom: 0 },
                };
                match r {
                    Ok((drawn, bounds)) => {
                        &&& self.spec_bounds(&frame) == Some(bounds)
                        &&& bounds.wf()
                        &&& self.resolves_to(&frame, drawn)
                    },
                    Err(e) => self.spec_bounds(&frame).is_none() && e.reports(
                        Fault::LineOutOfRange,
                    ),
                }
            }),
    {
        let frame = Frame::new(pos_bounds, layout_bounds);
        let from = self.from(&frame);
        let to = self.to(&frame);
        let w = self.width;
        let fx = from.x() as i64;
        let fy = from.y() as i64;
        let tx = to.x() as i64;
        let ty = to.y() as i64;
        let lo_x = if fx <= tx { fx } else { tx };
        let hi_x = if fx <= tx { tx } else { fx };
        let lo_y = if fy <= ty { fy } else { ty };
        let hi_y = if fy <= ty { ty } else { fy };
        let grow: i32 = if w > 0 { w } else { 0 };
        let out = half(grow) as i64;
        let g = grow as i64;
        let rect = if fy == ty && fx != tx {
            Rect::from_ltrb(lo_x, lo_y - out, hi_x, lo_y - out + g)
        } else if fx == tx && fy != ty {
            Rect::from_ltrb(lo_x - out, lo_y, lo_x - out + g, hi_y)
        } else {
            Rect::from_ltrb(lo_x - out, lo_y - out, hi_x - out + g, hi_y - out + g)
        };
        match rect {
            None => Err(Fault::LineOutOfRange.error()),
            Some(bounds) => {
                let path = Outline::line(Point { x: fx, y: fy }, Point { x: tx, y: ty });
                let canvas = (to_pixels(clamp(tx + w as i64)), to_pixels(clamp(ty + w as i64)));
                Ok(
                    (
                        DrawnLine { path, width: w, color: self.color, canvas, shadow: self.shadow },
                        bounds,
                    ),
                )
            },
        }
    }
}

/// A stroked line is never thinner than its stroke: the box of a
/// horizontal line is as high as the stroke is wide and as wide as the
/// line is long, and the box of a vertical line is as wide as the stroke
/// and as high as the line is long.
pub proof fn lemma_stroke_box(fx: int, fy: int, tx: int, ty: int, w: int)
    requires
        w >= 0,
    ensures
        ({
            let e = stroke_edges(fx, fy, tx, ty, w);
            &&& e.0 <= e.2 && e.1 <= e.3
            &&& fy == ty && fx != tx ==> e.3 - e.1 == w && e.2 - e.0 == (if fx <= tx {
                tx - fx
            } else {
                fx - tx
            })
            &&& fx == tx && fy != ty ==> e.2 - e.0 == w && e.3 - e.1 == (if fy <= ty {
                ty - fy
            } else {
                fy - ty
            })
        }),
{
}

} // verus!
