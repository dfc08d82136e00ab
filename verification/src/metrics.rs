//! Positions, sizes, insets and rectangles.
//!
//! Every value is a whole number of sub-pixel units.  Node descriptions hold
//! any `i32`; a resolved rectangle keeps its edges within
//! [`COORD_LIMIT`], so that widths and sums of two coordinates never leave
//! the `i32` range.

use vstd::prelude::*;

verus! {

/// The number of units in one pixel.
pub const UNITS_PER_PIXEL: i32 = 64;

/// The largest magnitude of a resolved coordinate.
pub const COORD_LIMIT: i32 = 0x3fff_ffff;

/// Whether `v` can be an edge of a resolved rectangle.
pub open spec fn in_range(v: int) -> bool {
    -(COORD_LIMIT as int) <= v <= COORD_LIMIT as int
}

/// `v` forced into the `i32` range.
pub open spec fn clamp_spec(v: int) -> int {
    if v < i32::MIN as int {
        i32::MIN as int
    } else if v > i32::MAX as int {
        i32::MAX as int
    } else {
        v
    }
}

/// The whole pixels covered by `v` units, counted from zero: negative
/// lengths cover none.
pub open spec fn pixels_spec(v: int) -> int {
    if v <= 0 {
        0
    } else {
        v / (UNITS_PER_PIXEL as int)
    }
}

/// The pixels needed to cover `v` units completely.
pub open spec fn pixels_ceil_spec(v: int) -> int {
    if v <= 0 {
        0
    } else {
        (v + (UNITS_PER_PIXEL as int) - 1) / (UNITS_PER_PIXEL as int)
    }
}

/// `v` units in whole pixels, rounded towards zero.
pub open spec fn whole_pixels_spec(v: int) -> int {
    if v >= 0 {
        v / (UNITS_PER_PIXEL as int)
    } else {
        -((-v) / (UNITS_PER_PIXEL as int))
    }
}

/// `v` units in whole pixels, rounded towards zero.
pub fn whole_pixels(v: i32) -> (r: i32)
    ensures
        r as int == whole_pixels_spec(v as int),
{
    if v >= 0 {
        v / UNITS_PER_PIXEL
    } else {
        (-((-(v as i64)) / (UNITS_PER_PIXEL as i64))) as i32
    }
}

/// `v` as a coordinate, where it is one.
pub fn fit(v: i64) -> (r: Option<i32>)
    ensures
        in_range(v as int) ==> r == Some(v as i32),
        !in_range(v as int) ==> r.is_none(),
{
    if v < -(COORD_LIMIT as i64) || v > COORD_LIMIT as i64 {
        None
    } else {
        Some(v as i32)
    }
}

/// `v` forced into the `i32` range.
pub fn clamp(v: i64) -> (r: i32)
    ensures
        r as int == clamp_spec(v as int),
{
    if v < i32::MIN as i64 {
        i32::MIN
    } else if v > i32::MAX as i64 {
        i32::MAX
    } else {
        v as i32
    }
}

/// The whole pixels covered by `v` units.
pub fn to_pixels(v: i32) -> (r: u32)
    ensures
        r as int == pixels_spec(v as int),
{
    if v <= 0 {
        0
    } else {
        (v / UNITS_PER_PIXEL) as u32
    }
}

/// The pixels needed to cover `v` units completely.
pub fn to_pixels_ceil(v: i32) -> (r: u32)
    ensures
        r as int == pixels_ceil_spec(v as int),
{
    if v <= 0 {
        0
    } else {
        ((v as i64 + (UNITS_PER_PIXEL as i64) - 1) / (UNITS_PER_PIXEL as i64)) as u32
    }
}

/// `p` pixels in units.
pub fn from_pixels(p: i32) -> (r: i64)
    ensures
        r as int == p as int * (UNITS_PER_PIXEL as int),
{
    assert(UNITS_PER_PIXEL == 64);
    p as i64 * 64
}

/// A point of which each axis may be left open.
#[derive(Clone, Copy, Debug)]
pub struct Position {
    pub x: Option<i32>,
    pub y: Option<i32>,
}

/// An extent of which each axis may be left open.
#[derive(Clone, Copy, Debug)]
pub struct Size {
    pub width: Option<i32>,
    pub height: Option<i32>,
}

/// Insets from the four edges of a box: top, right, bottom, left.
#[derive(Clone, Copy, Debug)]
pub struct Padding(pub i32, pub i32, pub i32, pub i32);

impl Position {
    pub open spec fn spec_x(&self) -> int {
        match self.x {
            Some(x) => x as int,
            None => 0,
        }
    }

    pub open spec fn spec_y(&self) -> int {
        match self.y {
            Some(y) => y as int,
            None => 0,
        }
    }

    /// A position with both axes given.
    pub fn new(x: i32, y: i32) -> (r: Position)
        ensures
            r.x == Some(x),
            r.y == Some(y),
    {
        Position { x: Some(x), y: Some(y) }
    }

    /// The origin of a rectangle.
    pub fn from_rect(rect: &Rect) -> (r: Position)
        ensures
            r.x == Some(rect.left),
            r.y == Some(rect.top),
    {
        Position { x: Some(rect.left), y: Some(rect.top) }
    }

    /// The horizontal coordinate, zero where it is open.
    pub fn x(&self) -> (r: i32)
        ensures
            r as int == self.spec_x(),
    {
        match self.x {
            Some(x) => x,
            None => 0,
        }
    }

    /// The vertical coordinate, zero where it is open.
    pub fn y(&self) -> (r: i32)
        ensures
            r as int == self.spec_y(),
    {
        match self.y {
            Some(y) => y,
            None => 0,
        }
    }

    pub fn set_x(&mut self, x: i32)
        ensures
            final(self).x == Some(x),
            final(self).y == old(self).y,
    {
        self.x = Some(x);
    }

    pub fn set_y(&mut self, y: i32)
        ensures
            final(self).y == Some(y),
            final(self).x == old(self).x,
    {
        self.y = Some(y);
    }

    /// Moves the point by the extent of `size`; an open axis counts as
    /// zero on either side, and a sum beyond the `i32` range stops at its
    /// end.
    pub fn add_size(&mut self, size: &Size)
        ensures
            final(self).x == Some(clamp_spec(old(self).spec_x() + size.spec_width()) as i32),
            final(self).y == Some(clamp_spec(old(self).spec_y() + size.spec_height()) as i32),
    {
        let nx = clamp(self.x() as i64 + size.width() as i64);
        let ny = clamp(self.y() as i64 + size.height() as i64);
        self.set_x(nx);
        self.set_y(ny);
    }
}

impl Default for Position {
    fn default() -> (r: Position)
        ensures
            r.x == Some(0i32),
            r.y == Some(0i32),
    {
        Position { x: Some(0), y: Some(0) }
    }
}

impl Size {
    pub open spec fn spec_width(&self) -> int {
        match self.width {
            Some(w) => w as int,
            None => 0,
        }
    }

    pub open spec fn spec_height(&self) -> int {
        match self.height {
            Some(h) => h as int,
            None => 0,
        }
    }

    /// A size with both axes given.
    pub fn new(width: i32, height: i32) -> (r: Size)
        ensures
            r.width == Some(width),
            r.height == Some(height),
    {
        Size { width: Some(width), height: Some(height) }
    }

    /// The extent of a rectangle.
    pub fn from_rect(rect: &Rect) -> (r: Size)
        requires
            rect.wf(),
        ensures
            r.width == Some(rect.spec_width() as i32),
            r.height == Some(rect.spec_height() as i32),
    {
        Size { width: Some(rect.width()), height: Some(rect.height()) }
    }

    /// The width, zero where it is open.
    pub fn width(&self) -> (r: i32)
        ensures
            r as int == self.spec_width(),
    {
        match self.width {
            Some(w) => w,
            None => 0,
        }
    }

    /// The height, zero where it is open.
    pub fn height(&self) -> (r: i32)
        ensures
            r as int == self.spec_height(),
    {
        match self.height {
            Some(h) => h,
            None => 0,
        }
    }

    /// Widens the size by `w`, starting from zero where the width is open;
    /// a sum beyond the `i32` range stops at its end.
    pub fn set_width(&mut self, w: i32)
        ensures
            final(self).width == Some(clamp_spec(old(self).spec_width() + w) as i32),
            final(self).height == old(self).height,
    {
        self.width = Some(clamp(self.width() as i64 + w as i64));
    }

    /// Heightens the size by `h`, starting from zero where the height is
    /// open; a sum beyond the `i32` range stops at its end.
    pub fn set_height(&mut self, h: i32)
        ensures
            final(self).height == Some(clamp_spec(old(self).spec_height() + h) as i32),
            final(self).width == old(self).width,
    {
        self.height = Some(clamp(self.height() as i64 + h as i64));
    }
}

impl Default for Size {
    fn default() -> (r: Size)
        ensures
            r.width == Some(0i32),
            r.height == Some(0i32),
    {
        Size { width: Some(0), height: Some(0) }
    }
}

impl Padding {
    pub fn top(&self) -> (r: i32)
        ensures
            r == self.0,
    {
        self.0
    }

    pub fn right(&self) -> (r: i32)
        ensures
            r == self.1,
    {
        self.1
    }

    pub fn bottom(&self) -> (r: i32)
        ensures
            r == self.2,
    {
        self.2
    }

    pub fn left(&self) -> (r: i32)
        ensures
            r == self.3,
    {
        self.3
    }
}

impl Default for Padding {
    fn default() -> (r: Padding)
        ensures
            r == Padding(0, 0, 0, 0),
    {
        Padding(0, 0, 0, 0)
    }
}

/// An axis-aligned rectangle given by its four edges.
#[derive(Clone, Copy, Debug, PartialEq, Eq, Structural)]
pub struct Rect {
    pub left: i32,
    pub top: i32,
    pub right: i32,
    pub bottom: i32,
}

impl Rect {
    /// The edges are ordered and within the coordinate range.
    pub open spec fn wf(&self) -> bool {
        &&& self.left <= self.right
        &&& self.top <= self.bottom
        &&& in_range(self.left as int)
        &&& in_range(self.top as int)
        &&& in_range(self.right as int)
        &&& in_range(self.bottom as int)
    }

    pub open spec fn spec_width(&self) -> int {
        self.right - self.left
    }

    pub open spec fn spec_height(&self) -> int {
        self.bottom - self.top
    }

    /// Whether four edges make a rectangle.
    pub open spec fn edges_ok(l: int, t: int, r: int, b: int) -> bool {
        l <= r && t <= b && in_range(l) && in_range(t) && in_range(r) && in_range(b)
    }

    /// The rectangle with the given edges, where they are ordered and in
    /// range.
    pub fn from_ltrb(l: i64, t: i64, r: i64, b: i64) -> (res: Option<Rect>)
        ensures
            Self::edges_ok(l as int, t as int, r as int, b as int) ==> res == Some(
                (Rect { left: l as i32, top: t as i32, right: r as i32, bottom: b as i32 }),
            ),
            !Self::edges_ok(l as int, t as int, r as int, b as int) ==> res.is_none(),
            res.is_some() ==> res.unwrap().wf(),
    {
        if l > r || t > b {
            return None;
        }
        match (fit(l), fit(t), fit(r), fit(b)) {
            (Some(left), Some(top), Some(right), Some(bottom)) => Some(
                Rect { left, top, right, bottom },
            ),
            _ => None,
        }
    }

    /// The rectangle with the given origin and extent, where the extent is
    /// not negative and the edges are in range.
    pub fn from_xywh(x: i32, y: i32, w: i32, h: i32) -> (res: Option<Rect>)
        ensures
            Self::edges_ok(x as int, y as int, x + w, y + h) ==> res == Some(
                (Rect { left: x, top: y, right: (x + w) as i32, bottom: (y + h) as i32 }),
            ),
            !Self::edges_ok(x as int, y as int, x + w, y + h) ==> res.is_none(),
            res.is_some() ==> res.unwrap().wf(),
    {
        Rect::from_ltrb(x as i64, y as i64, x as i64 + w as i64, y as i64 + h as i64)
    }

    /// The empty rectangle at the origin.
    pub fn empty() -> (r: Rect)
        ensures
            r == (Rect { left: 0, top: 0, right: 0, bottom: 0 }),
            r.wf(),
    {
        Rect { left: 0, top: 0, right: 0, bottom: 0 }
    }

    pub fn left(&self) -> (r: i32)
        ensures
            r == self.left,
    {
        self.left
    }

    pub fn top(&self) -> (r: i32)
        ensures
            r == self.top,
    {
        self.top
    }

    pub fn right(&self) -> (r: i32)
        ensures
            r == self.right,
    {
        self.right
    }

    pub fn bottom(&self) -> (r: i32)
        ensures
            r == self.bottom,
    {
        self.bottom
    }

    pub fn width(&self) -> (r: i32)
        requires
            self.wf(),
        ensures
            r as int == self.spec_width(),
            r >= 0,
    {
        self.right - self.left
    }

    pub fn height(&self) -> (r: i32)
        requires
            self.wf(),
        ensures
            r as int == self.spec_height(),
            r >= 0,
    {
        self.bottom - self.top
    }

    /// The smallest rectangle that holds both.
    pub open spec fn spec_union(&self, rect: &Rect) -> Rect {
        Rect {
            left: if self.left <= rect.left { self.left } else { rect.left },
            top: if self.top <= rect.top { self.top } else { rect.top },
            right: if self.right >= rect.right { self.right } else { rect.right },
            bottom: if self.bottom >= rect.bottom { self.bottom } else { rect.bottom },
        }
    }

    /// Whether `inner` lies within this rectangle.
    pub open spec fn covers(&self, inner: &Rect) -> bool {
        &&& self.left <= inner.left
        &&& self.top <= inner.top
        &&& inner.right <= self.right
        &&& inner.bottom <= self.bottom
    }
}

/// Rectangles that can be joined.
pub trait Union: Sized {
    spec fn union_wf(&self) -> bool;

    spec fn union_spec(&self, rect: &Self) -> Self;

    /// The smallest value that holds both.
    fn union(&self, rect: &Self) -> (r: Self)
        requires
            self.union_wf(),
            rect.union_wf(),
        ensures
            r == self.union_spec(rect),
            r.union_wf(),
    ;
}

impl Union for Rect {
    open spec fn union_wf(&self) -> bool {
        self.wf()
    }

    open spec fn union_spec(&self, rect: &Rect) -> Rect {
        self.spec_union(rect)
    }

    fn union(&self, rect: &Rect) -> (r: Rect) {
        let l = if self.left <= rect.left { self.left } else { rect.left };
        let t = if self.top <= rect.top { self.top } else { rect.top };
        let r = if self.right >= rect.right { self.right } else { rect.right };
        let b = if self.bottom >= rect.bottom { self.bottom } else { rect.bottom };
        Rect { left: l, top: t, right: r, bottom: b }
    }
}

/// The union holds both rectangles, is the same whichever comes first, and
/// joining a rectangle with itself changes nothing.
pub proof fn lemma_union_laws(a: Rect, b: Rect)
    requires
        a.wf(),
        b.wf(),
    ensures
        a.spec_union(&b).wf(),
        a.spec_union(&b).covers(&a),
        a.spec_union(&b).covers(&b),
        a.spec_union(&b) == b.spec_union(&a),
        a.spec_union(&a) == a,
{
}

/// Joining is associative: many rectangles merged in any grouping give one
/// rectangle, the smallest that holds them all.
pub proof fn lemma_union_associative(a: Rect, b: Rect, c: Rect)
    ensures
        a.spec_union(&b).spec_union(&c) == a.spec_union(&b.spec_union(&c)),
{
}

} // verus!
