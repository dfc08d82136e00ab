//! The nodes of a scene and what drawing one yields.

use vstd::prelude::*;
use crate::metrics::{clamp, clamp_spec, Rect};
use crate::path::{half, half_spec};
use crate::arc::Arc;
use crate::color::Rgba;
use crate::container::{Border, Container, Corner};
use crate::effects::{DropShadow, ShadowPlan};
use crate::path::{bounds_of, Outline};
use crate::shader::Shader;
use crate::utils::{AppResult, Fault};
use crate::line::Line;
use crate::text::{Row, Text};

verus! {

/// Horizontal alignment within the layout bounds.
#[derive(Clone, Copy, Debug, PartialEq, Eq, Structural)]
pub enum Align {
    Left,
    Center,
    Right,
}

impl Default for Align {
    fn default() -> (r: Align)
        ensures
            r == Align::Left,
    {
        Align::Left
    }
}

impl Align {
    /// The left edge of something `w` wide that is aligned within `bounds`
    /// with the offset `x`: counted from the left edge, centered (the
    /// offset is then not used), or counted back from the right edge.
    pub open spec fn spec_x(&self, x: int, w: int, bounds: &Rect) -> int {
        match self {
            Align::Left => bounds.left + x,
            Align::Center => bounds.left + half_spec(bounds.spec_width()) - half_spec(w),
            Align::Right => bounds.right - w - x,
        }
    }

    /// The aligned left edge, see [`Align::spec_x`]; a value beyond the
    /// `i32` range stops at its end.
    pub fn x(&self, x: i32, w: i32, bounds: &Rect) -> (r: i32)
        requires
            bounds.wf(),
        ensures
            r as int == clamp_spec(self.spec_x(x as int, w as int, bounds)),
    {
        match self {
            Align::Left => clamp(bounds.left as i64 + x as i64),
            Align::Center => clamp(
                bounds.left as i64 + half(bounds.width()) as i64 - half(w) as i64,
            ),
            Align::Right => clamp(bounds.right as i64 - w as i64 - x as i64),
        }
    }
}

/// The rectangles a node is resolved against.
#[derive(Clone, Copy, Debug)]
pub struct Frame {
    /// Where the node starts if it has no position of its own: the end of
    /// the previous sibling.
    pub pos_bounds: Rect,
    /// The area that the parent grants its children, inside its padding.
    pub layout_bounds: Rect,
    /// The box of what the node's own children occupy.
    pub children_bounds: Rect,
}

impl Frame {
    pub open spec fn wf(&self) -> bool {
        self.pos_bounds.wf() && self.layout_bounds.wf() && self.children_bounds.wf()
    }

    /// The frame of a node whose children have not been laid out.
    pub fn new(pos_bounds: Rect, layout_bounds: Rect) -> (r: Frame)
        ensures
            r.pos_bounds == pos_bounds,
            r.layout_bounds == layout_bounds,
            r.children_bounds == (Rect { left: 0, top: 0, right: 0, bottom: 0 }),
    {
        Frame { pos_bounds, layout_bounds, children_bounds: Rect::empty() }
    }
}

/// A resolved line, ready to be stroked.
#[derive(Debug)]
pub struct DrawnLine {
    /// The open two-point path of the line.
    pub path: Outline,
    /// The stroke width.
    pub width: i32,
    pub color: Rgba,
    /// The width and height in pixels of the buffer that the line is
    /// stroked into before it is merged.
    pub canvas: (u32, u32),
    pub shadow: Option<DropShadow>,
}

/// A resolved text, ready to have its glyphs stamped.  All its values
/// are in pixels.
#[derive(Debug)]
pub struct DrawnText {
    /// The rows of glyphs, top to bottom.
    pub rows: Vec<Row>,
    /// Where each row starts, from the left edge of the buffer.
    pub starts: Vec<u32>,
    /// Where the first row starts, from the top edge of the buffer.
    pub top: u32,
    /// The distance from one row to the next.
    pub line_height: u32,
    pub color: Rgba,
    pub shadow: Option<DropShadow>,
}

/// A node of a scene.
#[derive(Debug)]
pub enum Graphic {
    Text(Text),
    Container(Container),
    Line(Line),
    Arc(Arc),
}

/// A resolved box, ready to be filled, with its resolved children.
#[derive(Debug)]
pub struct DrawnContainer {
    /// The bounds the box was resolved against, and the box of what its
    /// children occupy.
    pub frame: Frame,
    /// The bounding box of the outline.
    pub bounds: Rect,
    /// The closed outline of the box.
    pub path: Outline,
    /// The fitted corner radii.
    pub corner: Corner,
    /// What the outline is filled with, if anything.
    pub shader: Option<Shader>,
    pub border: Option<Border>,
    /// The shadow to lay behind everything, if any.
    pub shadow: Option<ShadowPlan>,
    /// Whether the children are cut off at the outline.
    pub clip: bool,
    /// The resolved children, in drawing order.
    pub children: Vec<Drawn>,
}

/// What resolving a node yields.
#[derive(Debug)]
pub enum Drawn {
    /// An empty text: nothing to paint.
    Nothing,
    Line(DrawnLine),
    Text(DrawnText),
    Container(DrawnContainer),
}

/// A resolved node and the box that it occupies.  The box, not the bounds
/// the node was given, is what its siblings and its parent go by.
#[derive(Debug)]
pub struct DrawResult(pub Drawn, pub Rect);

/// The frame of a node before its children are laid out.
pub open spec fn first_frame(pos_bounds: Rect, layout_bounds: Rect) -> Frame {
    Frame {
        pos_bounds,
        layout_bounds,
        children_bounds: Rect { left: 0, top: 0, right: 0, bottom: 0 },
    }
}

/// Where the next sibling starts: the empty rectangle at the bottom right
/// corner of the box of the previous one.
pub open spec fn end_of(b: Rect) -> Rect {
    Rect { left: b.right, top: b.bottom, right: b.right, bottom: b.bottom }
}

/// The box that a node occupies when it is drawn against the given
/// bounds, or the fault that ends the drawing.
pub open spec fn draw_outcome(g: Graphic, pos_bounds: Rect, layout_bounds: Rect) -> Result<
    Rect,
    Fault,
>
    decreases g, 1int, 0int,
{
    let frame = first_frame(pos_bounds, layout_bounds);
    match g {
        Graphic::Line(line) => match line.spec_bounds(&frame) {
            Some(b) => Ok(b),
            None => Err(Fault::LineOutOfRange),
        },
        Graphic::Text(text) => match text.spec_bounds(&frame) {
            Some(b) => Ok(b),
            None => Err(
                if text.shaped.is_none() {
                    Fault::TextNotShaped
                } else {
                    Fault::TextOutOfRange
                },
            ),
        },
        Graphic::Arc(_) => Err(Fault::ArcNotImplemented),
        Graphic::Container(c) => container_outcome(c, pos_bounds, layout_bounds),
    }
}

/// What the children of a box occupy: the union of their boxes, or the
/// rectangle without extent at the origin for a box without children.
pub open spec fn children_box(joined: Option<Rect>) -> Rect {
    match joined {
        Some(r) => r,
        None => Rect { left: 0, top: 0, right: 0, bottom: 0 },
    }
}

/// The box that a container occupies, or the fault that ends the drawing.
///
/// The children are laid out first, within the box that the container
/// resolves to while it has no children bounds yet, inset by its padding.
/// The container is then resolved again with what its children occupy:
/// the union of their boxes, and of nothing else.  Its box is the bounding
/// box of its outline.  The drawing ends with a fault where the padding
/// does not fit, a child fails, the outline leaves the coordinate range,
/// the shadow does, or a gradient is to fill a box without extent.
pub open spec fn container_outcome(c: Container, pos_bounds: Rect, layout_bounds: Rect) -> Result<
    Rect,
    Fault,
>
    decreases c, 1int, 0int,
{
    match c.spec_children_layout_bounds(&first_frame(pos_bounds, layout_bounds)) {
        None => Err(Fault::PaddingTooLarge),
        Some(inner) => match children_outcome(c, 0, inner, None, inner) {
            Err(fault) => Err(fault),
            Ok(joined) => {
                let frame = Frame {
                    pos_bounds,
                    layout_bounds,
                    children_bounds: children_box(joined),
                };
                match bounds_of(c.spec_outline(&frame)) {
                    None => Err(Fault::OutlineOutOfRange),
                    Some(b) => if !shadow_fits(c, b) {
                        Err(Fault::ShadowOutOfRange)
                    } else if !c.paintable(&frame) {
                        Err(Fault::GradientOnEmptyBox)
                    } else {
                        Ok(b)
                    },
                }
            },
        },
    }
}

/// Whether the shadow of the container, if it has one, can be laid behind
/// a box with the bounds `b`.
pub open spec fn shadow_fits(c: Container, b: Rect) -> bool {
    match c.shadow {
        Some(s) => s.plannable(&b),
        None => true,
    }
}

/// `acc` joined with the box `b` of one more child.
pub open spec fn joined_with(acc: Option<Rect>, b: Rect) -> Option<Rect> {
    match acc {
        Some(a) => Some(a.spec_union(&b)),
        None => Some(b),
    }
}

/// The union of `acc` and the boxes of the children of `c` from the `k`-th
/// on, when the `k`-th starts at `cursor` and all are laid out within
/// `inner`; or the first fault among them.  Each child starts where the
/// box of the one before it ends.
pub open spec fn children_outcome(
    c: Container,
    k: int,
    cursor: Rect,
    acc: Option<Rect>,
    inner: Rect,
) -> Result<Option<Rect>, Fault>
    decreases c, 0int, c.spec_children().len() - k,
{
    if 0 <= k < c.spec_children().len() {
        match draw_outcome(c.spec_children()[k], cursor, inner) {
            Err(fault) => Err(fault),
            Ok(b) => children_outcome(c, k + 1, end_of(b), joined_with(acc, b), inner),
        }
    } else {
        Ok(acc)
    }
}

/// Where the `k`-th child of `c` starts, when all children before it can
/// be drawn: the first at the origin of `inner`, each other where the one
/// before it ends.
pub open spec fn cursor_at(c: Container, k: int, inner: Rect) -> Rect
    decreases k,
{
    if k <= 0 || k > c.spec_children().len() {
        inner
    } else {
        match draw_outcome(c.spec_children()[k - 1], cursor_at(c, k - 1, inner), inner) {
            Ok(b) => end_of(b),
            Err(_) => inner,
        }
    }
}

/// Whether `d` is what drawing `g` against the given bounds yields.
pub open spec fn drawn_ok(g: Graphic, pos_bounds: Rect, layout_bounds: Rect, d: Drawn) -> bool
    decreases g, 1int,
{
    let frame = first_frame(pos_bounds, layout_bounds);
    match g {
        Graphic::Line(line) => match d {
            Drawn::Line(dl) => line.resolves_to(&frame, dl),
            _ => false,
        },
        Graphic::Text(text) => match d {
            Drawn::Nothing => text.resolves_to(&frame, None),
            Drawn::Text(dt) => text.resolves_to(&frame, Some(dt)),
            _ => false,
        },
        Graphic::Arc(_) => false,
        Graphic::Container(c) => match d {
            Drawn::Container(dc) => container_drawn_ok(c, pos_bounds, layout_bounds, dc),
            _ => false,
        },
    }
}

/// Whether `dc` is what drawing the container against the given bounds
/// yields: its resolved geometry and paint, and its children resolved one
/// after the other.
pub open spec fn container_drawn_ok(
    c: Container,
    pos_bounds: Rect,
    layout_bounds: Rect,
    dc: DrawnContainer,
) -> bool
    decreases c, 0int,
{
    match c.spec_children_layout_bounds(&first_frame(pos_bounds, layout_bounds)) {
        None => false,
        Some(inner) => match children_outcome(c, 0, inner, None, inner) {
            Err(_) => false,
            Ok(joined) => {
                let frame = Frame {
                    pos_bounds,
                    layout_bounds,
                    children_bounds: children_box(joined),
                };
                &&& dc.frame == frame
                &&& bounds_of(c.spec_outline(&frame)) == Some(dc.bounds)
                &&& dc.path.segments@ == c.spec_outline(&frame)
                &&& dc.corner == c.spec_corner(&frame)
                &&& match (c.color, dc.shader) {
                    (None, None) => true,
                    (Some(_), Some(shader)) => c.painted_by(&frame, shader),
                    _ => false,
                }
                &&& dc.border == c.border
                &&& dc.clip == c.clip
                &&& match (c.shadow, dc.shadow) {
                    (None, None) => true,
                    (Some(s), Some(plan)) => s.planned(&dc.bounds, plan),
                    _ => false,
                }
                &&& dc.children@.len() == c.spec_children().len()
                &&& forall|j: int|
                    0 <= j < c.spec_children().len() ==> drawn_ok(
                        c.spec_children()[j],
                        cursor_at(c, j, inner),
                        inner,
                        #[trigger] dc.children@[j],
                    )
            },
        },
    }
}

impl Graphic {
    /// Resolves the node against the bounds that its parent gives it.
    ///
    /// `pos_bounds` is where the node starts if it has no position of its
    /// own, `layout_bounds` the area that the parent grants.  The result
    /// holds the resolved node and the box that it occupies; see
    /// [`draw_outcome`] for the box and the errors, and [`drawn_ok`] for
    /// the resolved node.
    pub fn draw(&self, pos_bounds: Rect, layout_bounds: Rect) -> (r: AppResult<DrawResult>)
        requires
            pos_bounds.wf(),
            layout_bounds.wf(),
        ensures
            match r {
                Ok(res) => {
                    &&& draw_outcome(*self, pos_bounds, layout_bounds) == Ok::<Rect, Fault>(res.1)
                    &&& res.1.wf()
                    &&& drawn_ok(*self, pos_bounds, layout_bounds, res.0)
                },
                Err(e) => match draw_outcome(*self, pos_bounds, layout_bounds) {
                    Err(fault) => e.reports(fault),
                    Ok(_) => false,
                },
            },
        decreases *self, 1int,
    {
        match self {
            Graphic::Container(container) => {
                proof {
                    assert(self->Container_0 == *container);
                    assert(decreases_to!(*self => self->Container_0));
                }
                match container.draw(pos_bounds, layout_bounds) {
                    Ok((dc, bounds)) => Ok(DrawResult(Drawn::Container(dc), bounds)),
                    Err(e) => Err(e),
                }
            },
            Graphic::Line(line) => match line.draw(pos_bounds, layout_bounds) {
                Ok((dl, bounds)) => Ok(DrawResult(Drawn::Line(dl), bounds)),
                Err(e) => Err(e),
            },
            Graphic::Text(text) => match text.draw(pos_bounds, layout_bounds) {
                Ok((Some(dt), bounds)) => Ok(DrawResult(Drawn::Text(dt), bounds)),
                Ok((None, bounds)) => Ok(DrawResult(Drawn::Nothing, bounds)),
                Err(e) => Err(e),
            },
            Graphic::Arc(arc) => match arc.draw() {
                Ok(_) => Err(Fault::ArcNotImplemented.error()),
                Err(e) => Err(e),
            },
        }
    }
}

/// One step of painting a resolved node onto the buffer of its parent.
#[derive(Clone, Copy, Debug, PartialEq, Eq, Structural)]
pub enum Step {
    /// Paint the children, in order, into one transparent buffer as large
    /// as the buffer of the parent.
    Children,
    /// Fill the silhouette of the box shadow into a buffer of its own,
    /// blur it, and merge it onto the buffer.
    BoxShadow,
    /// Grow the buffer to cover the box.
    Grow,
    /// Fill the outline with the paint of the box.
    Fill,
    /// Stroke the outline with the border.
    Border,
    /// Merge the buffer of the children on top, through the outline as a
    /// mask where `clip` is set.
    MergeChildren { clip: bool },
    /// Stroke the line into a transparent buffer of its own.
    Stroke,
    /// Stamp the glyphs into a transparent buffer as large as the buffer
    /// of the parent.
    Stamp,
    /// Lay the drop shadow behind what the buffer of the node holds.
    DropShadow,
    /// Merge the buffer of the node on top.
    Merge,
}

/// The steps of painting a box: its children come first, into a buffer of
/// their own; the shadow goes behind everything else of the box; fill and
/// border follow on the grown buffer; the children are merged last.
pub open spec fn container_steps(dc: DrawnContainer) -> Seq<Step> {
    seq![Step::Children] + (if dc.shadow.is_some() {
        seq![Step::BoxShadow]
    } else {
        Seq::empty()
    }) + seq![Step::Grow] + (if dc.shader.is_some() {
        seq![Step::Fill]
    } else {
        Seq::empty()
    }) + (if dc.border.is_some() {
        seq![Step::Border]
    } else {
        Seq::empty()
    }) + seq![Step::MergeChildren { clip: dc.clip }]
}

/// The steps of painting a resolved node: see [`container_steps`] for a
/// box; a line is stroked and a text stamped into a buffer of its own,
/// which gets its drop shadow laid behind and is then merged; an empty
/// text takes no step.
pub open spec fn steps_spec(d: Drawn) -> Seq<Step> {
    match d {
        Drawn::Nothing => Seq::empty(),
        Drawn::Container(dc) => container_steps(dc),
        Drawn::Line(dl) => seq![Step::Stroke] + (if dl.shadow.is_some() {
            seq![Step::DropShadow]
        } else {
            Seq::empty()
        }) + seq![Step::Merge],
        Drawn::Text(dt) => seq![Step::Stamp] + (if dt.shadow.is_some() {
            seq![Step::DropShadow]
        } else {
            Seq::empty()
        }) + seq![Step::Merge],
    }
}

impl Drawn {
    /// The steps of painting the node, in order; see [`steps_spec`].
    pub fn steps(&self) -> (r: Vec<Step>)
        ensures
            r@ == steps_spec(*self),
    {
        let mut steps: Vec<Step> = Vec::new();
        match self {
            Drawn::Nothing => {},
            Drawn::Container(dc) => {
                steps.push(Step::Children);
                if dc.shadow.is_some() {
                    steps.push(Step::BoxShadow);
                }
                steps.push(Step::Grow);
                if dc.shader.is_some() {
                    steps.push(Step::Fill);
                }
                if dc.border.is_some() {
                    steps.push(Step::Border);
                }
                steps.push(Step::MergeChildren { clip: dc.clip });
            },
            Drawn::Line(dl) => {
                steps.push(Step::Stroke);
                if dl.shadow.is_some() {
                    steps.push(Step::DropShadow);
                }
                steps.push(Step::Merge);
            },
            Drawn::Text(dt) => {
                steps.push(Step::Stamp);
                if dt.shadow.is_some() {
                    steps.push(Step::DropShadow);
                }
                steps.push(Step::Merge);
            },
        }
        assert(steps@ =~= steps_spec(*self));
        steps
    }
}

/// What can be resolved against the bounds that a parent gives.
pub trait Draw {
    /// The box that the node occupies, or the fault that ends the drawing.
    spec fn outcome(&self, pos_bounds: Rect, layout_bounds: Rect) -> Result<Rect, Fault>;

    /// Whether `drawn` is what drawing the node yields.
    spec fn yields(&self, pos_bounds: Rect, layout_bounds: Rect, drawn: Drawn) -> bool;

    /// Resolves the node: `pos_bounds` is where it starts if it has no
    /// position of its own, `layout_bounds` the area that its parent
    /// grants.
    fn draw(&self, pos_bounds: Rect, layout_bounds: Rect) -> (r: AppResult<DrawResult>)
        requires
            pos_bounds.wf(),
            layout_bounds.wf(),
        ensures
            match r {
                Ok(res) => {
                    &&& self.outcome(pos_bounds, layout_bounds) == Ok::<Rect, Fault>(res.1)
                    &&& res.1.wf()
                    &&& self.yields(pos_bounds, layout_bounds, res.0)
                },
                Err(e) => match self.outcome(pos_bounds, layout_bounds) {
                    Err(fault) => e.reports(fault),
                    Ok(_) => false,
                },
            },
    ;
}

impl Draw for Graphic {
    open spec fn outcome(&self, pos_bounds: Rect, layout_bounds: Rect) -> Result<Rect, Fault> {
        draw_outcome(*self, pos_bounds, layout_bounds)
    }

    open spec fn yields(&self, pos_bounds: Rect, layout_bounds: Rect, drawn: Drawn) -> bool {
        drawn_ok(*self, pos_bounds, layout_bounds, drawn)
    }

    fn draw(&self, pos_bounds: Rect, layout_bounds: Rect) -> (r: AppResult<DrawResult>) {
        Graphic::draw(self, pos_bounds, layout_bounds)
    }
}

impl Draw for Container {
    open spec fn outcome(&self, pos_bounds: Rect, layout_bounds: Rect) -> Result<Rect, Fault> {
        container_outcome(*self, pos_bounds, layout_bounds)
    }

    open spec fn yields(&self, pos_bounds: Rect, layout_bounds: Rect, drawn: Drawn) -> bool {
        match drawn {
            Drawn::Container(dc) => container_drawn_ok(*self, pos_bounds, layout_bounds, dc),
            _ => false,
        }
    }

    fn draw(&self, pos_bounds: Rect, layout_bounds: Rect) -> (r: AppResult<DrawResult>) {
        match Container::draw(self, pos_bounds, layout_bounds) {
            Ok((dc, bounds)) => Ok(DrawResult(Drawn::Container(dc), bounds)),
            Err(e) => Err(e),
        }
    }
}

impl Draw for Line {
    open spec fn outcome(&self, pos_bounds: Rect, layout_bounds: Rect) -> Result<Rect, Fault> {
        match self.spec_bounds(&first_frame(pos_bounds, layout_bounds)) {
            Some(b) => Ok(b),
            None => Err(Fault::LineOutOfRange),
        }
    }

    open spec fn yields(&self, pos_bounds: Rect, layout_bounds: Rect, drawn: Drawn) -> bool {
        match drawn {
            Drawn::Line(dl) => self.resolves_to(&first_frame(pos_bounds, layout_bounds), dl),
            _ => false,
        }
    }

    fn draw(&self, pos_bounds: Rect, layout_bounds: Rect) -> (r: AppResult<DrawResult>) {
        match Line::draw(self, pos_bounds, layout_bounds) {
            Ok((dl, bounds)) => Ok(DrawResult(Drawn::Line(dl), bounds)),
            Err(e) => Err(e),
        }
    }
}

impl Draw for Text {
    open spec fn outcome(&self, pos_bounds: Rect, layout_bounds: Rect) -> Result<Rect, Fault> {
        match self.spec_bounds(&first_frame(pos_bounds, layout_bounds)) {
            Some(b) => Ok(b),
            None => Err(
                if self.shaped.is_none() {
                    Fault::TextNotShaped
                } else {
                    Fault::TextOutOfRange
                },
            ),
        }
    }

    open spec fn yields(&self, pos_bounds: Rect, layout_bounds: Rect, drawn: Drawn) -> bool {
        match drawn {
            Drawn::Nothing => self.resolves_to(&first_frame(pos_bounds, layout_bounds), None),
            Drawn::Text(dt) => self.resolves_to(&first_frame(pos_bounds, layout_bounds), Some(dt)),
            _ => false,
        }
    }

    fn draw(&self, pos_bounds: Rect, layout_bounds: Rect) -> (r: AppResult<DrawResult>) {
        match Text::draw(self, pos_bounds, layout_bounds) {
            Ok((Some(dt), bounds)) => Ok(DrawResult(Drawn::Text(dt), bounds)),
            Ok((None, bounds)) => Ok(DrawResult(Drawn::Nothing, bounds)),
            Err(e) => Err(e),
        }
    }
}

} // verus!
