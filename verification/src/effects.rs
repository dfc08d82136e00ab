//! Box shadows and drop shadows.

use vstd::prelude::*;
use crate::color::Rgba;
use crate::compositing::{
    expand_pixmap, expanded_size, larger, merge_base, merge_pixmap, drawn_over, BlendMode,
    Buffer, MAX_DIM,
};
use crate::metrics::{
    clamp, clamp_spec, pixels_spec, to_pixels, whole_pixels, whole_pixels_spec, Rect,
    UNITS_PER_PIXEL,
};
use crate::path::{half, half_spec};
use crate::utils::{AppResult, Fault};

verus! {

/// A blurred silhouette of a box, drawn behind it.
#[derive(Clone, Copy, Debug)]
pub struct BoxShadow {
    /// The horizontal offset of the silhouette.
    pub x: i32,
    /// The vertical offset of the silhouette.
    pub y: i32,
    /// By how much the silhouette outgrows the box on each axis.
    pub spread: i32,
    /// The blur radius.
    pub blur: i32,
    pub color: Rgba,
}

/// A blurred, recolored copy of what was drawn, laid behind it.
#[derive(Clone, Copy, Debug)]
pub struct DropShadow {
    /// The horizontal offset of the copy.
    pub x: i32,
    /// The vertical offset of the copy.
    pub y: i32,
    /// The blur radius.
    pub blur: i32,
    pub color: Rgba,
}

/// The geometry of a box shadow: what to fill, into what, and how to blur
/// it.
#[derive(Clone, Copy, Debug)]
pub struct ShadowPlan {
    /// By how much the outline of the box is moved.
    pub offset: (i32, i32),
    /// The moved outline is scaled about its own center by these two
    /// fractions, numerator and denominator, across and down.  A fraction
    /// without a denominator leaves the outline as it is.
    pub scale_x: (i64, i64),
    pub scale_y: (i64, i64),
    /// The box of the moved and scaled outline.
    pub silhouette: Rect,
    /// The width and height in pixels of the buffer that the silhouette is
    /// filled into and blurred in.
    pub canvas: (u32, u32),
    /// The blur radius, across and down alike.
    pub blur: i32,
    pub color: Rgba,
}

/// The two edges of a side of the silhouette: the side from `lo` to `hi`,
/// moved by `by` and grown by `spread` about its middle.  A side without
/// length is only moved; a side that would shrink beyond nothing comes out
/// mirrored, with its edges in order.
pub open spec fn grown_side(lo: int, hi: int, by: int, spread: int) -> (int, int) {
    let len = hi - lo;
    if len == 0 {
        (lo + by, hi + by)
    } else {
        let a = lo + by - half_spec(spread);
        let b = a + len + spread;
        if a <= b {
            (a, b)
        } else {
            (b, a)
        }
    }
}

fn grow_side(lo: i32, hi: i32, by: i32, spread: i32) -> (r: (i64, i64))
    requires
        lo <= hi,
    ensures
        (r.0 as int, r.1 as int) == grown_side(lo as int, hi as int, by as int, spread as int),
{
    let len = hi as i64 - lo as i64;
    if len == 0 {
        (lo as i64 + by as i64, hi as i64 + by as i64)
    } else {
        let a = lo as i64 + by as i64 - half(spread) as i64;
        let b = a + len + spread as i64;
        if a <= b {
            (a, b)
        } else {
            (b, a)
        }
    }
}

impl BoxShadow {
    /// The four edges of the silhouette of a box with the bounds `bounds`.
    pub open spec fn spec_edges(&self, bounds: &Rect) -> (int, int, int, int) {
        let (l, r) = grown_side(
            bounds.left as int,
            bounds.right as int,
            self.x as int,
            self.spread as int,
        );
        let (t, b) = grown_side(
            bounds.top as int,
            bounds.bottom as int,
            self.y as int,
            self.spread as int,
        );
        (l, t, r, b)
    }

    /// Whether the silhouette is a rectangle within the coordinate range.
    pub open spec fn plannable(&self, bounds: &Rect) -> bool {
        let e = self.spec_edges(bounds);
        Rect::edges_ok(e.0, e.1, e.2, e.3)
    }

    /// Whether `plan` is the geometry of this shadow behind a box with the
    /// bounds `bounds`.
    pub open spec fn planned(&self, bounds: &Rect, plan: ShadowPlan) -> bool {
        let e = self.spec_edges(bounds);
        let w = bounds.spec_width();
        let h = bounds.spec_height();
        &&& plan.offset == (self.x, self.y)
        &&& plan.scale_x == ((w + self.spread) as i64, w as i64)
        &&& plan.scale_y == ((h + self.spread) as i64, h as i64)
        &&& plan.silhouette == (Rect {
            left: e.0 as i32,
            top: e.1 as i32,
            right: e.2 as i32,
            bottom: e.3 as i32,
        })
        &&& plan.canvas.0 == pixels_spec(clamp_spec(e.2 + self.spread))
        &&& plan.canvas.1 == pixels_spec(clamp_spec(e.3 + self.spread))
        &&& plan.blur == self.blur
        &&& plan.color == self.color
    }

    /// The geometry of the shadow behind a box with the bounds `bounds`:
    /// the outline moved by the offset and grown by the spread about its
    /// center, and a buffer that holds it with the spread to spare.  It
    /// fails where the silhouette leaves the coordinate range.
    pub fn plan(&self, bounds: &Rect) -> (r: AppResult<ShadowPlan>)
        requires
            bounds.wf(),
        ensures
            match r {
                Ok(plan) => self.plannable(bounds) && self.planned(bounds, plan)
                    && plan.silhouette.wf(),
                Err(e) => !self.plannable(bounds) && e.reports(Fault::ShadowOutOfRange),
            },
    {
        let (l, r) = grow_side(bounds.left, bounds.right, self.x, self.spread);
        let (t, b) = grow_side(bounds.top, bounds.bottom, self.y, self.spread);
        let w = bounds.width() as i64;
        let h = bounds.height() as i64;
        match Rect::from_ltrb(l, t, r, b) {
            None => Err(Fault::ShadowOutOfRange.error()),
            Some(silhouette) => Ok(
                ShadowPlan {
                    offset: (self.x, self.y),
                    scale_x: (w + self.spread as i64, w),
                    scale_y: (h + self.spread as i64, h),
                    silhouette,
                    canvas: (
                        to_pixels(clamp(r + self.spread as i64)),
                        to_pixels(clamp(b + self.spread as i64)),
                    ),
                    blur: self.blur,
                    color: self.color,
                },
            ),
        }
    }
}

/// A color channel scaled by an alpha: their product over 255, rounded to
/// the nearest; with full alpha the channel itself.
pub open spec fn premul(c: u8, a: u8) -> u8 {
    if a == 255 {
        c
    } else {
        let prod = (c as int) * (a as int) + 128;
        ((prod + prod / 256) / 256) as u8
    }
}

/// The four bytes of a pixel of the color `color` at the alpha `alpha`,
/// premultiplied.
pub open spec fn pixel_of(color: Rgba, alpha: u8) -> (u8, u8, u8, u8) {
    (premul(color.0, alpha), premul(color.1, alpha), premul(color.2, alpha), alpha)
}

/// An alpha weakened by a second one: their product over 255, rounded
/// down.
pub open spec fn weaken(alpha: u8, by: u8) -> u8 {
    (((alpha as int) * (by as int)) / 255) as u8
}

/// `tiny_skia::ColorU8::premultiply` on the color made of three channels and
/// an alpha: each channel comes back scaled by the alpha as [`premul`]
/// says, the alpha as it is.
#[verifier::external_body]
fn premultiply(red: u8, green: u8, blue: u8, alpha: u8) -> (r: (u8, u8, u8, u8))
    ensures
        r == pixel_of(Rgba(red, green, blue, 0), alpha),
{
    let c = tiny_skia::ColorU8::from_rgba(red, green, blue, alpha).premultiply();
    (c.red(), c.green(), c.blue(), c.alpha())
}

/// The premultiplied pixel of `color` shown through a coverage or an
/// alpha `through`, from 0 to 255: the alpha of the color is weakened by
/// it, and the channels are scaled by the result.
pub open spec fn shade_spec(color: Rgba, through: u8) -> (u8, u8, u8, u8) {
    pixel_of(color, weaken(color.3, through))
}

/// The premultiplied pixel of `color` shown through `through`; see
/// [`shade_spec`].
pub fn shade(color: Rgba, through: u8) -> (r: (u8, u8, u8, u8))
    ensures
        r == shade_spec(color, through),
{
    assert(0 <= (color.3 as int) * (through as int) <= 255 * 255) by (nonlinear_arith)
        requires
            0 <= color.3 <= 255,
            0 <= through <= 255,
    ;
    let product: u32 = (color.3 as u32) * (through as u32);
    let alpha = (product / 255) as u8;
    premultiply(color.0, color.1, color.2, alpha)
}

/// The bytes of a raster with every pixel replaced by the shadow color,
/// shown through the alpha that the pixel had.
pub open spec fn recolored(data: Seq<u8>, color: Rgba) -> Seq<u8> {
    Seq::new(
        data.len(),
        |i: int|
            {
                let alpha = data[(i / 4) * 4 + 3];
                let p = shade_spec(color, alpha);
                if i % 4 == 0 {
                    p.0
                } else if i % 4 == 1 {
                    p.1
                } else if i % 4 == 2 {
                    p.2
                } else {
                    p.3
                }
            },
    )
}

/// The byte at `i` of a recolored raster is the channel of the shaded
/// pixel that `i` falls into.
proof fn lemma_recolored_at(data: Seq<u8>, color: Rgba, pixel: int, channel: int)
    requires
        0 <= channel < 4,
        0 <= pixel,
        4 * pixel + 3 < data.len(),
    ensures
        ({
            let p = shade_spec(color, data[4 * pixel + 3]);
            recolored(data, color)[4 * pixel + channel] == (if channel == 0 {
                p.0
            } else if channel == 1 {
                p.1
            } else if channel == 2 {
                p.2
            } else {
                p.3
            })
        }),
{
    let i = 4 * pixel + channel;
    assert(i / 4 == pixel && i % 4 == channel);
}

/// Replaces every pixel by the color, shown through the alpha that the
/// pixel had.
pub fn recolor(data: &mut Vec<u8>, color: Rgba)
    requires
        old(data)@.len() % 4 == 0,
    ensures
        final(data)@ == recolored(old(data)@, color),
{
    let count = data.len() / 4;
    let ghost before = data@;
    let ghost target = recolored(before, color);
    let mut k: usize = 0;
    while k < count
        invariant
            0 <= k <= count,
            count == before.len() / 4,
            before.len() % 4 == 0,
            before.len() <= usize::MAX,
            data@.len() == before.len(),
            target == recolored(before, color),
            target.len() == before.len(),
            forall|j: int| 0 <= j < 4 * k ==> data@[j] == target[j],
            forall|j: int| 4 * k <= j < before.len() ==> data@[j] == before[j],
        decreases count - k,
    {
        let at = 4 * k;
        let p = shade(color, data[at + 3]);
        proof {
            lemma_recolored_at(before, color, k as int, 0);
            lemma_recolored_at(before, color, k as int, 1);
            lemma_recolored_at(before, color, k as int, 2);
            lemma_recolored_at(before, color, k as int, 3);
        }
        data.set(at, p.0);
        data.set(at + 1, p.1);
        data.set(at + 2, p.2);
        data.set(at + 3, p.3);
        k = k + 1;
    }
    assert(data@ =~= target);
}

/// One channel of a raster: every fourth byte, from the `channel`-th on.
pub open spec fn channel_spec(data: Seq<u8>, channel: int) -> Seq<u8> {
    Seq::new((data.len() / 4) as nat, |i: int| data[4 * i + channel])
}

/// A raster with one channel replaced.
pub open spec fn with_channel(data: Seq<u8>, channel: int, values: Seq<u8>) -> Seq<u8> {
    Seq::new(
        data.len(),
        |i: int|
            if i % 4 == channel {
                values[i / 4]
            } else {
                data[i]
            },
    )
}

/// One of the four channels of a raster, as a raster of its own.
pub fn split_channel(data: &Vec<u8>, channel: usize) -> (r: Vec<u8>)
    requires
        channel < 4,
        data@.len() % 4 == 0,
    ensures
        r@ == channel_spec(data@, channel as int),
{
    let count = data.len() / 4;
    let mut out: Vec<u8> = Vec::new();
    let mut i: usize = 0;
    while i < count
        invariant
            0 <= i <= count,
            count == data@.len() / 4,
            data@.len() % 4 == 0,
            data@.len() <= usize::MAX,
            channel < 4,
            out@.len() == i,
            forall|k: int| 0 <= k < i ==> out@[k] == data@[4 * k + channel],
        decreases count - i,
    {
        assert(4 * i + channel < data@.len());
        out.push(data[4 * i + channel]);
        i = i + 1;
    }
    assert(out@ =~= channel_spec(data@, channel as int));
    out
}

/// Puts a channel back into a raster.
pub fn store_channel(data: &mut Vec<u8>, channel: usize, values: &Vec<u8>)
    requires
        channel < 4,
        old(data)@.len() % 4 == 0,
        values@.len() == old(data)@.len() / 4,
    ensures
        final(data)@ == with_channel(old(data)@, channel as int, values@),
{
    let count = values.len();
    let ghost before = data@;
    assert(before.len() <= usize::MAX) by {
        assert(data@.len() == data.len());
    }
    let mut i: usize = 0;
    while i < count
        invariant
            0 <= i <= count,
            count == values@.len(),
            count == before.len() / 4,
            before.len() % 4 == 0,
            before.len() <= usize::MAX,
            channel < 4,
            data@.len() == before.len(),
            forall|k: int|
                0 <= k < 4 * i ==> data@[k] == with_channel(before, channel as int, values@)[k],
            forall|k: int| 4 * i <= k < before.len() ==> data@[k] == before[k],
        decreases count - i,
    {
        assert(4 * i + channel < data@.len());
        data.set(4 * i + channel, values[i]);
        i = i + 1;
    }
    assert(data@ =~= with_channel(before, channel as int, values@));
}

/// Taking a channel out of a raster and putting it back changes nothing,
/// and a channel that was put in is the one that comes out.
pub proof fn lemma_channel_round_trip(data: Seq<u8>, channel: int, values: Seq<u8>)
    requires
        0 <= channel < 4,
        data.len() % 4 == 0,
        values.len() == data.len() / 4,
    ensures
        with_channel(data, channel, channel_spec(data, channel)) == data,
        channel_spec(with_channel(data, channel, values), channel) == values,
{
    assert(with_channel(data, channel, channel_spec(data, channel)) =~= data);
    assert(channel_spec(with_channel(data, channel, values), channel) =~= values);
}

/// A copy of a buffer.
fn copy_buffer(pixmap: &Buffer) -> (r: Buffer)
    ensures
        r.width == pixmap.width,
        r.height == pixmap.height,
        r.data@ == pixmap.data@,
{
    let mut data: Vec<u8> = Vec::with_capacity(pixmap.data.len());
    let mut i: usize = 0;
    while i < pixmap.data.len()
        invariant
            0 <= i <= pixmap.data@.len(),
            data@ == pixmap.data@.subrange(0, i as int),
        decreases pixmap.data@.len() - i,
    {
        data.push(pixmap.data[i]);
        assert(data@ =~= pixmap.data@.subrange(0, i as int + 1));
        i = i + 1;
    }
    assert(pixmap.data@.subrange(0, i as int) =~= pixmap.data@);
    Buffer { width: pixmap.width, height: pixmap.height, data }
}

impl DropShadow {
    /// The far edges of the area that the shadow of a buffer `width` by
    /// `height` pixels needs: the buffer, the blur radius and the offset
    /// together.
    pub open spec fn spec_reach(&self, width: u32, height: u32) -> (int, int) {
        (
            width * (UNITS_PER_PIXEL as int) + self.blur + self.x,
            height * (UNITS_PER_PIXEL as int) + self.blur + self.y,
        )
    }

    /// Whether the shadow of a buffer of the given size can be made: its
    /// area is a rectangle, and the buffer that covers it can be had.
    pub open spec fn castable(&self, width: u32, height: u32) -> bool {
        let (right, bottom) = self.spec_reach(width, height);
        &&& Rect::edges_ok(0, 0, right, bottom)
        &&& {
            let bounds = Rect { left: 0, top: 0, right: right as i32, bottom: bottom as i32 };
            let (w, h) = expanded_size(width, height, bounds);
            (w == width && h == height) || (0 < w <= MAX_DIM && 0 < h <= MAX_DIM)
        }
    }

    /// The silhouette of what `pixmap` holds, before it is blurred: a copy
    /// grown to make room for the blur and the offset, every pixel
    /// replaced by the shadow color shown through the alpha that the pixel
    /// had.
    pub fn prepare(&self, pixmap: &Buffer) -> (r: AppResult<Buffer>)
        requires
            pixmap.wf(),
        ensures
            match r {
                Ok(res) => {
                    let (right, bottom) = self.spec_reach(pixmap.width, pixmap.height);
                    let bounds = Rect {
                        left: 0,
                        top: 0,
                        right: right as i32,
                        bottom: bottom as i32,
                    };
                    let (w, h) = expanded_size(pixmap.width, pixmap.height, bounds);
                    &&& self.castable(pixmap.width, pixmap.height)
                    &&& res.wf()
                    &&& res.width == w
                    &&& res.height == h
                    &&& res.data@ == recolored(
                        if w == pixmap.width && h == pixmap.height {
                            pixmap.data@
                        } else {
                            merge_base(*pixmap, res.width, res.height, false)
                        },
                        self.color,
                    )
                },
                Err(e) => {
                    &&& !self.castable(pixmap.width, pixmap.height)
                    &&& e.reports(
                        if Rect::edges_ok(
                            0,
                            0,
                            self.spec_reach(pixmap.width, pixmap.height).0,
                            self.spec_reach(pixmap.width, pixmap.height).1,
                        ) {
                            Fault::ShadowBuffer
                        } else {
                            Fault::ShadowArea
                        },
                    )
                },
            },
    {
        let unit = UNITS_PER_PIXEL as i64;
        let right = pixmap.width as i64 * unit + self.blur as i64 + self.x as i64;
        let bottom = pixmap.height as i64 * unit + self.blur as i64 + self.y as i64;
        proof {
            assert(UNITS_PER_PIXEL == 64);
            let reach = self.spec_reach(pixmap.width, pixmap.height);
            assert(reach.0 == right && reach.1 == bottom);
        }
        let bounds = match Rect::from_ltrb(0, 0, right, bottom) {
            Some(b) => b,
            None => {
                return Err(Fault::ShadowArea.error());
            },
        };
        let copy = copy_buffer(pixmap);
        let ghost copied = copy;
        let mut grown = match expand_pixmap(&bounds, copy) {
            Ok(b) => b,
            Err(e) => {
                return Err(Fault::ShadowBuffer.error());
            },
        };
        assert(grown.data@.len() % 4 == 0) by {
            assert(grown.data@.len() == 4 * ((grown.width as int) * (grown.height as int)))
                by (nonlinear_arith)
                requires
                    grown.data@.len() == 4 * (grown.width as int) * (grown.height as int),
            ;
        }
        assert(merge_base(copied, grown.width, grown.height, false) == merge_base(
            *pixmap,
            grown.width,
            grown.height,
            false,
        ));
        recolor(&mut grown.data, self.color);
        Ok(grown)
    }

    /// Lays the blurred shadow behind `pixmap`, moved by the offset of the
    /// shadow in whole pixels.
    pub fn finish(&self, pixmap: Buffer, shadow: &Buffer) -> (r: AppResult<Buffer>)
        requires
            pixmap.wf(),
            shadow.wf(),
        ensures
            ({
                let x = whole_pixels_spec(self.x as int);
                let y = whole_pixels_spec(self.y as int);
                match r {
                    Ok(res) => {
                        &&& res.wf()
                        &&& shadow.is_empty() ==> res.width == pixmap.width && res.height
                            == pixmap.height && res.data@ == pixmap.data@
                        &&& !shadow.is_empty() ==> {
                            &&& res.width == larger(pixmap.width, shadow.width)
                            &&& res.height == larger(pixmap.height, shadow.height)
                            &&& res.data@ == drawn_over(
                                merge_base(pixmap, res.width, res.height, true),
                                res.width,
                                res.height,
                                shadow.data@,
                                shadow.width,
                                shadow.height,
                                x as i32,
                                y as i32,
                                true,
                            )
                        }
                    },
                    Err(e) => {
                        &&& !shadow.is_empty()
                        &&& x + shadow.width > i32::MAX || y + shadow.height > i32::MAX
                        &&& e.reports(Fault::MergeOutOfRange)
                    },
                }
            }),
    {
        merge_pixmap(
            pixmap,
            shadow,
            whole_pixels(self.x),
            whole_pixels(self.y),
            BlendMode::DestinationOver,
            None,
        )
    }
}

} // verus!
