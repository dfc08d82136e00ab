//! Boxes: the nodes that hold other nodes.

use vstd::prelude::*;
use crate::color::{Color, Rgba};
use crate::effects::BoxShadow;
use crate::graphic::{
    children_box, children_outcome, container_drawn_ok, container_outcome, cursor_at, draw_outcome, drawn_ok,
    end_of, first_frame, Align, DrawResult, Drawn, DrawnContainer, Frame, Graphic,
};
use crate::metrics::Union;
use crate::metrics::{clamp, clamp_spec, Padding, Position, Rect, Size};
use crate::path::{half, half_spec, Outline};
use crate::shader::{create_linear_gradient, is_gradient_of, Shader};
use crate::utils::{AppResult, Fault};

verus! {

/// The radii of the four corners of a box: top left, top right, bottom
/// right, bottom left.
#[derive(Clone, Copy, Debug, PartialEq, Eq, Structural)]
pub struct Corner(pub i32, pub i32, pub i32, pub i32);

/// A stroke along the outline of a box.
#[derive(Clone, Copy, Debug)]
pub struct Border {
    pub width: i32,
    pub color: Rgba,
}

/// A box with optional fill, border, shadow, padding and children.
#[derive(Debug)]
pub struct Container {
    pub corner: Option<Corner>,
    pub color: Option<Color>,
    pub shadow: Option<BoxShadow>,
    pub position: Option<Position>,
    pub size: Option<Size>,
    pub border: Option<Border>,
    pub children: Option<Vec<Graphic>>,
    pub padding: Option<Padding>,
    pub align: Option<Align>,
    /// Whether children are cut off at the outline of the box.
    pub clip: bool,
}

impl Default for Container {
    /// A box without extent at the origin, with nothing set.
    fn default() -> (r: Container)
        ensures
            r.corner.is_none(),
            r.color.is_none(),
            r.shadow.is_none(),
            r.position == Some((Position { x: Some(0), y: Some(0) })),
            r.size == Some((Size { width: Some(0), height: Some(0) })),
            r.border.is_none(),
            r.children.is_none(),
            r.padding.is_none(),
            r.align.is_none(),
            !r.clip,
    {
        Container {
            corner: None,
            color: None,
            shadow: None,
            position: Some(Position { x: Some(0), y: Some(0) }),
            size: Some(Size { width: Some(0), height: Some(0) }),
            border: None,
            children: None,
            padding: None,
            align: None,
            clip: false,
        }
    }
}

impl Default for Corner {
    fn default() -> (r: Corner)
        ensures
            r == Corner(0, 0, 0, 0),
    {
        Corner(0, 0, 0, 0)
    }
}

/// The least of three integers.
pub open spec fn min3(a: int, b: int, c: int) -> int {
    if a <= b && a <= c {
        a
    } else if b <= c {
        b
    } else {
        c
    }
}

/// A corner radius fitted to a box `w` wide and `h` high: at most half of
/// either side.
pub open spec fn fitted(r: int, w: int, h: int) -> int {
    min3(r, half_spec(w), half_spec(h))
}

fn fit_radius(r: i32, mc_x: i32, mc_y: i32) -> (res: i32)
    ensures
        res as int == min3(r as int, mc_x as int, mc_y as int),
{
    let nums: [i64; 3] = [r as i64, mc_x as i64, mc_y as i64];
    let least = crate::utils::min(nums.as_slice());
    proof {
        let s = nums@;
        assert(s.len() == 3);
        let s2 = s.drop_last();
        let s1 = s2.drop_last();
        assert(s1.len() == 1 && s1[0] == s[0]);
        assert(s2.len() == 2 && s2.last() == s[1]);
        reveal_with_fuel(crate::utils::seq_min, 4);
        assert(crate::utils::seq_min(s1) == s[0]);
        assert(crate::utils::seq_min(s) == min3(s[0] as int, s[1] as int, s[2] as int));
    }
    least as i32
}

impl Corner {
    /// Each radius fitted to `size`, independently; an open axis of the
    /// size counts as zero.
    pub open spec fn spec_fitted(&self, size: &Size) -> Corner {
        Corner(
            fitted(self.0 as int, size.spec_width(), size.spec_height()) as i32,
            fitted(self.1 as int, size.spec_width(), size.spec_height()) as i32,
            fitted(self.2 as int, size.spec_width(), size.spec_height()) as i32,
            fitted(self.3 as int, size.spec_width(), size.spec_height()) as i32,
        )
    }

    /// The radii clamped to half the width and half the height of `size`.
    pub fn get_fitted(&self, size: &Size) -> (r: Corner)
        ensures
            r == self.spec_fitted(size),
            r.0 as int == fitted(self.0 as int, size.spec_width(), size.spec_height()),
            r.1 as int == fitted(self.1 as int, size.spec_width(), size.spec_height()),
            r.2 as int == fitted(self.2 as int, size.spec_width(), size.spec_height()),
            r.3 as int == fitted(self.3 as int, size.spec_width(), size.spec_height()),
    {
        let mc_x = half(size.width());
        let mc_y = half(size.height());
        Corner(
            fit_radius(self.0, mc_x, mc_y),
            fit_radius(self.1, mc_x, mc_y),
            fit_radius(self.2, mc_x, mc_y),
            fit_radius(self.3, mc_x, mc_y),
        )
    }
}

impl Container {
    /// The children of the box, in drawing order.
    pub open spec fn spec_children(&self) -> Seq<Graphic> {
        match self.children {
            Some(v) => v@,
            None => Seq::empty(),
        }
    }

    /// The insets of the box, zero where none are given.
    pub open spec fn spec_padding(&self) -> Padding {
        match self.padding {
            Some(p) => p,
            None => Padding(0, 0, 0, 0),
        }
    }

    /// The width: the explicit one, else the width of the layout bounds
    /// plus the horizontal insets of the box.
    pub open spec fn spec_width(&self, frame: &Frame) -> int {
        match self.size {
            Some(Size { width: Some(w), .. }) => w as int,
            _ => clamp_spec(
                frame.layout_bounds.spec_width() + self.spec_padding().3 + self.spec_padding().1,
            ),
        }
    }

    /// The height: the explicit one, else the height of what the children
    /// occupy plus the vertical insets of the box.
    pub open spec fn spec_height(&self, frame: &Frame) -> int {
        match self.size {
            Some(Size { height: Some(h), .. }) => h as int,
            _ => clamp_spec(
                frame.children_bounds.spec_height() + self.spec_padding().0 + self.spec_padding().2,
            ),
        }
    }

    /// The left edge: the explicit offset aligned within the layout
    /// bounds (from the left where no alignment is given); else the
    /// aligned place without offset; else where the previous sibling ended.
    pub open spec fn spec_x(&self, frame: &Frame) -> int {
        match self.position {
            Some(Position { x: Some(x), .. }) => {
                let align = match self.align {
                    Some(a) => a,
                    None => Align::Left,
                };
                clamp_spec(align.spec_x(x as int, self.spec_width(frame), &frame.layout_bounds))
            },
            _ => match self.align {
                Some(a) => clamp_spec(a.spec_x(0, self.spec_width(frame), &frame.layout_bounds)),
                None => frame.pos_bounds.left as int,
            },
        }
    }

    /// The top edge: the explicit offset from the top of the layout
    /// bounds, else where the previous sibling ended.
    pub open spec fn spec_y(&self, frame: &Frame) -> int {
        match self.position {
            Some(Position { y: Some(y), .. }) => clamp_spec(y + frame.layout_bounds.top),
            _ => frame.pos_bounds.top as int,
        }
    }

    /// The corner radii fitted to the resolved extent of the box.
    pub open spec fn spec_corner(&self, frame: &Frame) -> Corner {
        let given = match self.corner {
            Some(c) => c,
            None => Corner(0, 0, 0, 0),
        };
        given.spec_fitted(
            &(Size {
                width: Some(self.spec_width(frame) as i32),
                height: Some(self.spec_height(frame) as i32),
            }),
        )
    }

    /// The four edges of the area that the box grants its children: its
    /// resolved box, inset by its padding.
    pub open spec fn spec_inner_edges(&self, frame: &Frame) -> (int, int, int, int) {
        let p = self.spec_padding();
        (
            self.spec_x(frame) + p.3,
            self.spec_y(frame) + p.0,
            self.spec_x(frame) + self.spec_width(frame) - p.1,
            self.spec_y(frame) + self.spec_height(frame) - p.2,
        )
    }

    /// The area that the box grants its children, where its edges make a
    /// rectangle.
    pub open spec fn spec_children_layout_bounds(&self, frame: &Frame) -> Option<Rect> {
        let e = self.spec_inner_edges(frame);
        if Rect::edges_ok(e.0, e.1, e.2, e.3) {
            Some(Rect { left: e.0 as i32, top: e.1 as i32, right: e.2 as i32, bottom: e.3 as i32 })
        } else {
            None
        }
    }

    /// The outline of the box: see [`crate::path::rounded_rect_spec`].
    pub open spec fn spec_outline(&self, frame: &Frame) -> Seq<crate::path::PathSegment> {
        let c = self.spec_corner(frame);
        crate::path::rounded_rect_spec(
            self.spec_x(frame),
            self.spec_y(frame),
            self.spec_width(frame),
            self.spec_height(frame),
            c.0 as int,
            c.1 as int,
            c.2 as int,
            c.3 as int,
        )
    }

    pub fn padding(&self) -> (r: Padding)
        ensures
            r == self.spec_padding(),
    {
        match self.padding {
            Some(p) => p,
            None => Padding(0, 0, 0, 0),
        }
    }

    pub fn width(&self, frame: &Frame) -> (r: i32)
        requires
            frame.wf(),
        ensures
            r as int == self.spec_width(frame),
    {
        if let Some(size) = self.size {
            if let Some(w) = size.width {
                return w;
            }
        }
        let p = self.padding();
        clamp(frame.layout_bounds.width() as i64 + p.left() as i64 + p.right() as i64)
    }

    pub fn height(&self, frame: &Frame) -> (r: i32)
        requires
            frame.wf(),
        ensures
            r as int == self.spec_height(frame),
    {
        if let Some(size) = self.size {
            if let Some(h) = size.height {
                return h;
            }
        }
        let p = self.padding();
        clamp(frame.children_bounds.height() as i64 + p.top() as i64 + p.bottom() as i64)
    }

    pub fn x(&self, frame: &Frame) -> (r: i32)
        requires
            frame.wf(),
        ensures
            r as int == self.spec_x(frame),
    {
        if let Some(position) = self.position {
            if let Some(x) = position.x {
                let align = match self.align {
                    Some(a) => a,
                    None => Align::Left,
                };
                return align.x(x, self.width(frame), &frame.layout_bounds);
            }
        }
        if let Some(align) = self.align {
            return align.x(0, self.width(frame), &frame.layout_bounds);
        }
        frame.pos_bounds.left()
    }

    pub fn y(&self, frame: &Frame) -> (r: i32)
        requires
            frame.wf(),
        ensures
            r as int == self.spec_y(frame),
    {
        if let Some(position) = self.position {
            if let Some(y) = position.y {
                return clamp(y as i64 + frame.layout_bounds.top() as i64);
            }
        }
        frame.pos_bounds.top()
    }

    pub fn corner(&self, frame: &Frame) -> (r: Corner)
        requires
            frame.wf(),
        ensures
            r == self.spec_corner(frame),
    {
        let given = match self.corner {
            Some(c) => c,
            None => Corner(0, 0, 0, 0),
        };
        given.get_fitted(&Size { width: Some(self.width(frame)), height: Some(self.height(frame)) })
    }

    /// The area that the box grants its children.  It fails where the
    /// padding is larger than the box or the area leaves the coordinate
    /// range.
    pub fn children_layout_bounds(&self, frame: &Frame) -> (r: AppResult<Rect>)
        requires
            frame.wf(),
        ensures
            match r {
                Ok(rect) => self.spec_children_layout_bounds(frame) == Some(rect) && rect.wf(),
                Err(e) => self.spec_children_layout_bounds(frame).is_none() && e.reports(
                    Fault::PaddingTooLarge,
                ),
            },
    {
        let padding = self.padding();
        let x = self.x(frame) as i64;
        let y = self.y(frame) as i64;
        let l = x + padding.left() as i64;
        let t = y + padding.top() as i64;
        let r = x + self.width(frame) as i64 - padding.right() as i64;
        let b = y + self.height(frame) as i64 - padding.bottom() as i64;
        match Rect::from_ltrb(l, t, r, b) {
            Some(rect) => Ok(rect),
            None => Err(Fault::PaddingTooLarge.error()),
        }
    }

    /// The outline of the box: one closed contour that starts in the middle
    /// of the left side and comes back to it.  It can be made of any
    /// resolved box and any corner radii.
    pub fn path(&self, frame: &Frame) -> (r: AppResult<Outline>)
        requires
            frame.wf(),
        ensures
            r.is_ok(),
            r.unwrap().segments@ == self.spec_outline(frame),
            r.unwrap().spec_closed(),
            crate::path::returns_to_start(
                r.unwrap().segments@,
                crate::path::pt(
                    self.spec_x(frame),
                    self.spec_y(frame) + half_spec(self.spec_height(frame)),
                ),
            ),
    {
        let c = self.corner(frame);
        proof {
            crate::path::lemma_rounded_rect_closed(
                self.spec_x(frame),
                self.spec_y(frame),
                self.spec_width(frame),
                self.spec_height(frame),
                c.0 as int,
                c.1 as int,
                c.2 as int,
                c.3 as int,
            );
        }
        Ok(
            Outline::rounded_rect(
                self.x(frame),
                self.y(frame),
                self.width(frame),
                self.height(frame),
                c.0,
                c.1,
                c.2,
                c.3,
            ),
        )
    }
}

/// A copy of the stops of a gradient.
fn copy_stops(stops: &Vec<crate::color::ColorStop>) -> (r: Vec<crate::color::ColorStop>)
    ensures
        r@ == stops@,
{
    let mut out: Vec<crate::color::ColorStop> = Vec::new();
    let mut i: usize = 0;
    while i < stops.len()
        invariant
            0 <= i <= stops@.len(),
            out@ == stops@.subrange(0, i as int),
        decreases stops@.len() - i,
    {
        out.push(stops[i]);
        assert(out@ =~= stops@.subrange(0, i as int + 1));
        i = i + 1;
    }
    assert(stops@.subrange(0, i as int) =~= stops@);
    out
}

impl Container {
    /// Whether `shader` paints the box with its color: the solid color,
    /// or the gradient across the resolved box.
    pub open spec fn painted_by(&self, frame: &Frame, shader: Shader) -> bool {
        match self.color {
            None => shader == Shader::SolidColor(Rgba(255, 255, 255, 0)),
            Some(Color::Rgba(c)) => shader == Shader::SolidColor(c),
            Some(Color::Gradient(g)) => is_gradient_of(
                shader,
                g.angle as int,
                self.spec_x(frame),
                self.spec_y(frame),
                self.spec_width(frame),
                self.spec_height(frame),
                g.stops@,
            ),
        }
    }

    /// Whether the box has a paint: a gradient needs a box with an
    /// extent.
    pub open spec fn paintable(&self, frame: &Frame) -> bool {
        match self.color {
            Some(Color::Gradient(g)) => self.spec_width(frame) != 0 && self.spec_height(frame)
                != 0,
            _ => true,
        }
    }

    /// The paint of the box; a box without color is painted fully
    /// transparent.  It fails for a gradient across a box without width or
    /// height.
    pub fn paint(&self, frame: &Frame) -> (r: AppResult<Shader>)
        requires
            frame.wf(),
        ensures
            match r {
                Ok(shader) => self.paintable(frame) && self.painted_by(frame, shader),
                Err(e) => !self.paintable(frame) && e.reports(Fault::GradientOnEmptyBox),
            },
    {
        match &self.color {
            None => Ok(Shader::SolidColor(Rgba(255, 255, 255, 0))),
            Some(Color::Rgba(c)) => Ok(Shader::SolidColor(*c)),
            Some(Color::Gradient(g)) => {
                let x = self.x(frame);
                let y = self.y(frame);
                let w = self.width(frame);
                let h = self.height(frame);
                create_linear_gradient(
                    g.angle,
                    Position { x: Some(x), y: Some(y) },
                    Size { width: Some(w), height: Some(h) },
                    self.corner(frame),
                    copy_stops(&g.stops),
                )
            },
        }
    }

    /// The color of the box, fully transparent white where it has none.
    pub fn color(&self) -> (r: Color)
        ensures
            match (self.color, r) {
                (None, Color::Rgba(c)) => c == Rgba(255, 255, 255, 0),
                (Some(Color::Rgba(c)), Color::Rgba(d)) => c == d,
                (Some(Color::Gradient(g)), Color::Gradient(k)) => g.angle == k.angle && g.stops@
                    == k.stops@,
                _ => false,
            },
    {
        match &self.color {
            None => Color::Rgba(Rgba(255, 255, 255, 0)),
            Some(Color::Rgba(c)) => Color::Rgba(*c),
            Some(Color::Gradient(g)) => Color::Gradient(
                crate::color::LinearGradient { angle: g.angle, stops: copy_stops(&g.stops) },
            ),
        }
    }
}

impl Container {
    /// Resolves the children one after the other within `inner`: the first
    /// starts at the origin of `inner`, each other where the box of the
    /// one before it ends.  The result holds the resolved children and the
    /// union of their boxes, which is nothing for no children.
    pub fn draw_children(&self, inner: Rect) -> (r: AppResult<(Vec<Drawn>, Option<Rect>)>)
        requires
            inner.wf(),
        ensures
            match r {
                Ok((drawn, joined)) => {
                    &&& children_outcome(*self, 0, inner, None, inner) == Ok::<
                        Option<Rect>,
                        Fault,
                    >(joined)
                    &&& joined.is_some() ==> joined.unwrap().wf()
                    &&& drawn@.len() == self.spec_children().len()
                    &&& forall|j: int|
                        0 <= j < self.spec_children().len() ==> drawn_ok(
                            self.spec_children()[j],
                            cursor_at(*self, j, inner),
                            inner,
                            #[trigger] drawn@[j],
                        )
                },
                Err(e) => match children_outcome(*self, 0, inner, None, inner) {
                    Err(fault) => e.reports(fault),
                    Ok(_) => false,
                },
            },
        decreases *self, 0int,
    {
        let mut cursor = inner;
        let mut acc: Option<Rect> = None;
        let mut drawn: Vec<Drawn> = Vec::new();
        if let Some(children) = &self.children {
            let mut k: usize = 0;
            while k < children.len()
                invariant
                    0 <= k <= children@.len(),
                    self.children == Some(*children),
                    children@ == self.spec_children(),
                    inner.wf(),
                    cursor.wf(),
                    acc.is_some() ==> acc.unwrap().wf(),
                    cursor == cursor_at(*self, k as int, inner),
                    children_outcome(*self, k as int, cursor, acc, inner) == children_outcome(
                        *self,
                        0,
                        inner,
                        None,
                        inner,
                    ),
                    drawn@.len() == k,
                    forall|j: int|
                        0 <= j < k ==> drawn_ok(
                            children@[j],
                            cursor_at(*self, j, inner),
                            inner,
                            #[trigger] drawn@[j],
                        ),
                decreases children@.len() - k,
            {
                proof {
                    assert(decreases_to!(*self => self.children));
                    assert(decreases_to!(self.children => *children));
                    assert(decreases_to!(*children => children@));
                    assert(decreases_to!(children@ => children@[k as int]));
                }
                match children[k].draw(cursor, inner) {
                    Err(e) => {
                        return Err(e);
                    },
                    Ok(DrawResult(d, bounds)) => {
                        let ghost before = drawn@;
                        drawn.push(d);
                        proof {
                            assert(cursor_at(*self, k as int + 1, inner) == end_of(bounds));
                            assert forall|j: int| 0 <= j < k + 1 implies drawn_ok(
                                children@[j],
                                cursor_at(*self, j, inner),
                                inner,
                                #[trigger] drawn@[j],
                            ) by {
                                if j < k {
                                    assert(drawn@[j] == before[j]);
                                }
                            }
                        }
                        cursor =
                        Rect {
                            left: bounds.right,
                            top: bounds.bottom,
                            right: bounds.right,
                            bottom: bounds.bottom,
                        };
                        acc =
                        match acc {
                            Some(a) => Some(a.union(&bounds)),
                            None => Some(bounds),
                        };
                        k = k + 1;
                    },
                }
            }
        }
        Ok((drawn, acc))
    }

    /// Resolves the box and everything in it against the bounds that its
    /// parent gives it.
    ///
    /// The children are laid out first, one after the other, within the
    /// box inset by its padding; each starts where the one before it ended
    /// unless it has a position of its own.  The box is then resolved with
    /// what the children occupy, so that a box without a height of its own
    /// wraps them.  The result holds the outline, paint, border and shadow
    /// of the box, its resolved children, and the bounding box of its
    /// outline.  See [`container_outcome`] and [`container_drawn_ok`].
    pub fn draw(&self, pos_bounds: Rect, layout_bounds: Rect) -> (r: AppResult<
        (DrawnContainer, Rect),
    >)
        requires
            pos_bounds.wf(),
            layout_bounds.wf(),
        ensures
            match r {
                Ok((dc, bounds)) => {
                    &&& container_outcome(*self, pos_bounds, layout_bounds) == Ok::<Rect, Fault>(
                        bounds,
                    )
                    &&& bounds.wf()
                    &&& dc.bounds == bounds
                    &&& container_drawn_ok(*self, pos_bounds, layout_bounds, dc)
                },
                Err(e) => match container_outcome(*self, pos_bounds, layout_bounds) {
                    Err(fault) => e.reports(fault),
                    Ok(_) => false,
                },
            },
        decreases *self, 1int,
    {
        let first = Frame::new(pos_bounds, layout_bounds);
        let inner = match self.children_layout_bounds(&first) {
            Ok(rect) => rect,
            Err(e) => {
                return Err(e);
            },
        };
        let (drawn, acc) = match self.draw_children(inner) {
            Ok(done) => done,
            Err(e) => {
                return Err(e);
            },
        };
        let children_bounds = match acc {
            Some(r) => r,
            None => Rect::empty(),
        };
        let frame = Frame { pos_bounds, layout_bounds, children_bounds };
        let path = match self.path(&frame) {
            Ok(path) => path,
            Err(e) => {
                return Err(e);
            },
        };
        let bounds = match path.bounds() {
            Some(b) => b,
            None => {
                return Err(Fault::OutlineOutOfRange.error());
            },
        };
        let shadow = match self.shadow {
            None => None,
            Some(s) => match s.plan(&bounds) {
                Ok(plan) => Some(plan),
                Err(e) => {
                    return Err(e);
                },
            },
        };
        let shader = if self.color.is_some() {
            match self.paint(&frame) {
                Ok(shader) => Some(shader),
                Err(e) => {
                    return Err(e);
                },
            }
        } else {
            None
        };
        let corner = self.corner(&frame);
        Ok(
            (
                DrawnContainer {
                    frame,
                    bounds,
                    path,
                    corner,
                    shader,
                    border: self.border,
                    shadow,
                    clip: self.clip,
                    children: drawn,
                },
                bounds,
            ),
        )
    }
}

/// The bounding box of the outline of a container is its resolved box:
/// the outline of a box whose extent and given radii are not negative
/// stays within the box and touches each of its sides.
pub proof fn lemma_outline_bounds(c: Container, frame: Frame)
    requires
        frame.wf(),
        c.spec_width(&frame) >= 0,
        c.spec_height(&frame) >= 0,
        match c.corner {
            Some(k) => k.0 >= 0 && k.1 >= 0 && k.2 >= 0 && k.3 >= 0,
            None => true,
        },
        Rect::edges_ok(
            c.spec_x(&frame),
            c.spec_y(&frame),
            c.spec_x(&frame) + c.spec_width(&frame),
            c.spec_y(&frame) + c.spec_height(&frame),
        ),
    ensures
        crate::path::bounds_of(c.spec_outline(&frame)) == Some(
            (Rect {
                left: c.spec_x(&frame) as i32,
                top: c.spec_y(&frame) as i32,
                right: (c.spec_x(&frame) + c.spec_width(&frame)) as i32,
                bottom: (c.spec_y(&frame) + c.spec_height(&frame)) as i32,
            }),
        ),
        c.spec_outline(&frame).last() == crate::path::PathSegment::Close,
{
    let x = c.spec_x(&frame);
    let y = c.spec_y(&frame);
    let w = c.spec_width(&frame);
    let h = c.spec_height(&frame);
    let k = c.spec_corner(&frame);
    let given = match c.corner {
        Some(k) => k,
        None => Corner(0, 0, 0, 0),
    };
    lemma_fitted(given.0 as int, w, h);
    lemma_fitted(given.1 as int, w, h);
    lemma_fitted(given.2 as int, w, h);
    lemma_fitted(given.3 as int, w, h);
    crate::path::lemma_rounded_rect_extent(
        x,
        y,
        w,
        h,
        k.0 as int,
        k.1 as int,
        k.2 as int,
        k.3 as int,
    );
    crate::path::lemma_bounds_from_extent(c.spec_outline(&frame), (x, y, x + w, y + h));
}

/// A container without a height of its own wraps its only child: it
/// resolves to the height of the box that the child occupies plus its
/// padding above and below, wherever the child lies.  Its width, where it
/// has none of its own, is the width of the layout bounds plus its padding
/// left and right.  A height beyond the `i32` range stops at its end.
pub proof fn lemma_auto_size_wraps_child(
    c: Container,
    pos_bounds: Rect,
    layout_bounds: Rect,
    inner: Rect,
    child_box: Rect,
)
    requires
        match c.size {
            Some(size) => size.height.is_none(),
            None => true,
        },
        c.spec_children().len() == 1,
        c.spec_children_layout_bounds(&first_frame(pos_bounds, layout_bounds)) == Some(inner),
        draw_outcome(c.spec_children()[0], inner, inner) == Ok::<Rect, Fault>(child_box),
    ensures
        children_outcome(c, 0, inner, None, inner) == Ok::<Option<Rect>, Fault>(Some(child_box)),
        ({
            let frame = Frame { pos_bounds, layout_bounds, children_bounds: child_box };
            &&& c.spec_height(&frame) == clamp_spec(
                child_box.spec_height() + c.spec_padding().0 + c.spec_padding().2,
            )
            &&& (match c.size {
                Some(size) => size.width.is_none(),
                None => true,
            }) ==> c.spec_width(&frame) == clamp_spec(
                layout_bounds.spec_width() + c.spec_padding().3 + c.spec_padding().1,
            )
        }),
{
    reveal_with_fuel(children_outcome, 3);
}

/// A container without children and without a height of its own is as
/// high as its padding above and below: without padding it has no height
/// at all.
pub proof fn lemma_empty_container(c: Container, pos_bounds: Rect, layout_bounds: Rect, inner: Rect)
    requires
        match c.size {
            Some(size) => size.height.is_none(),
            None => true,
        },
        c.spec_children().len() == 0,
        c.spec_children_layout_bounds(&first_frame(pos_bounds, layout_bounds)) == Some(inner),
    ensures
        children_outcome(c, 0, inner, None, inner) == Ok::<Option<Rect>, Fault>(None),
        ({
            let frame = Frame {
                pos_bounds,
                layout_bounds,
                children_bounds: children_box(None),
            };
            c.spec_height(&frame) == clamp_spec(c.spec_padding().0 + c.spec_padding().2)
        }),
{
}


/// Fitting a radius takes the least of the radius, half the width and
/// half the height; in a box without extent a radius that is not negative
/// becomes zero; and a fitted radius of a box with an extent fits it.
pub proof fn lemma_fitted(r: int, w: int, h: int)
    ensures
        fitted(r, w, h) <= r,
        fitted(r, w, h) <= half_spec(w),
        fitted(r, w, h) <= half_spec(h),
        fitted(r, w, h) == r || fitted(r, w, h) == half_spec(w) || fitted(r, w, h) == half_spec(h),
        r >= 0 ==> fitted(r, 0, 0) == 0,
        r >= 0 && w >= 0 && h >= 0 ==> crate::path::radius_fits(fitted(r, w, h), w, h),
{
}

} // verus!
