//! Pixel buffers and the three operations that combine them: growing a
//! buffer to cover a rectangle, merging one buffer onto another, and
//! cropping a buffer to a rectangle.

use vstd::prelude::*;
use crate::metrics::{
    pixels_ceil_spec, to_pixels_ceil, whole_pixels, whole_pixels_spec, Rect,
};
use crate::utils::{AppResult, Fault};

verus! {

/// The greatest width and height of a buffer, in pixels.
pub const MAX_DIM: u32 = 32767;

/// A raster of premultiplied RGBA pixels, four bytes each, row by row
/// from the top.
#[derive(Debug)]
pub struct Buffer {
    pub width: u32,
    pub height: u32,
    pub data: Vec<u8>,
}

/// How a buffer is laid onto another.
#[derive(Clone, Copy, Debug, PartialEq, Eq, Structural)]
pub enum BlendMode {
    /// The source covers the destination.
    SourceOver,
    /// The source shows only where the destination lets it through.
    DestinationOver,
}

/// `tiny_skia::Path`, the rasterizer's own path: it is only handed on, as
/// the outline that a merge is masked by.
#[verifier::external_type_specification]
#[verifier::external_body]
pub struct ExMaskPath(tiny_skia::Path);

/// The pixels of a destination after a source has been drawn onto it with
/// its top left corner at `(x, y)`, at full opacity and without scaling:
/// over the destination, or behind it.  Both are given by their bytes,
/// width and height.
pub uninterp spec fn drawn_over(
    dst: Seq<u8>,
    dst_width: u32,
    dst_height: u32,
    src: Seq<u8>,
    src_width: u32,
    src_height: u32,
    x: i32,
    y: i32,
    behind: bool,
) -> Seq<u8>;

/// The number of bytes of a buffer of the given size.
pub open spec fn byte_len(width: u32, height: u32) -> int {
    4 * (width as int) * (height as int)
}

/// Whether a size is one that a drawing can take place on.
pub open spec fn drawable(width: u32, height: u32) -> bool {
    0 < width <= MAX_DIM && 0 < height <= MAX_DIM
}

/// `tiny_skia::ClipMask`, the coverage that a path leaves of a raster: it
/// is only handed on, from where it is made to the drawing it masks.
#[verifier::external_type_specification]
#[verifier::external_body]
pub struct ExClipMask(tiny_skia::ClipMask);

/// `tiny_skia::ClipMask::set_path` on a new mask `width` by `height`, with
/// the even-odd rule and anti-aliasing.  What the mask lets through depends
/// on the path, of which nothing is known here.  The size must be one whose
/// pixels 32 bits can count.
#[verifier::external_body]
fn mask_of(width: u32, height: u32, path: &tiny_skia::Path) -> (r: tiny_skia::ClipMask)
    requires
        drawable(width, height),
{
    let mut clip = tiny_skia::ClipMask::new();
    clip.set_path(width, height, path, tiny_skia::FillRule::EvenOdd, true);
    clip
}

/// `tiny_skia::PixmapMut::draw_pixmap` on two rasters given by their bytes,
/// with the default pixmap paint but for the blend mode, and the identity
/// transform.  Without a mask the call changes the destination into what
/// [`drawn_over`] names; through a mask, what it lets through is not known
/// here.  Either way the call leaves the length of the destination alone.
/// Both sizes must be ones that `PixmapRef::from_bytes` and
/// `PixmapMut::from_bytes` accept for the bytes given, and the source at
/// its offset must stay within what `IntRect` can hold.
#[verifier::external_body]
fn draw_onto(
    dst: &mut Vec<u8>,
    dst_width: u32,
    dst_height: u32,
    src: &Vec<u8>,
    src_width: u32,
    src_height: u32,
    x: i32,
    y: i32,
    mode: BlendMode,
    clip: Option<&tiny_skia::ClipMask>,
)
    requires
        drawable(dst_width, dst_height),
        drawable(src_width, src_height),
        old(dst)@.len() == byte_len(dst_width, dst_height),
        src@.len() == byte_len(src_width, src_height),
        x + src_width <= i32::MAX,
        y + src_height <= i32::MAX,
    ensures
        clip.is_none() ==> final(dst)@ == drawn_over(
            old(dst)@,
            dst_width,
            dst_height,
            src@,
            src_width,
            src_height,
            x,
            y,
            mode == BlendMode::DestinationOver,
        ),
        final(dst)@.len() == old(dst)@.len(),
{
    let source = tiny_skia::PixmapRef::from_bytes(src, src_width, src_height).unwrap();
    let mut target = tiny_skia::PixmapMut::from_bytes(dst, dst_width, dst_height).unwrap();
    let mut paint = tiny_skia::PixmapPaint::default();
    paint.blend_mode = match mode {
        BlendMode::SourceOver => tiny_skia::BlendMode::SourceOver,
        BlendMode::DestinationOver => tiny_skia::BlendMode::DestinationOver,
    };
    target.draw_pixmap(x, y, source, &paint, tiny_skia::Transform::identity(), clip);
}

/// `n` zero bytes.
pub open spec fn zeros(n: int) -> Seq<u8> {
    Seq::new(n as nat, |i: int| 0u8)
}

impl Buffer {
    /// The bytes match the size, and the size is within the limit.
    pub open spec fn wf(&self) -> bool {
        &&& self.width <= MAX_DIM
        &&& self.height <= MAX_DIM
        &&& self.data@.len() == byte_len(self.width, self.height)
    }

    /// Whether the buffer holds no pixel.
    pub open spec fn is_empty(&self) -> bool {
        self.width == 0 || self.height == 0
    }

    /// The buffer without pixels.
    pub fn empty() -> (r: Buffer)
        ensures
            r.wf(),
            r.width == 0,
            r.height == 0,
            r.data@.len() == 0,
    {
        Buffer { width: 0, height: 0, data: Vec::new() }
    }

    /// A fully transparent buffer of the given size.  A buffer cannot be
    /// made without width or height, nor beyond [`MAX_DIM`].
    pub fn new(width: u32, height: u32) -> (r: AppResult<Buffer>)
        ensures
            match r {
                Ok(b) => {
                    &&& drawable(width, height)
                    &&& b.wf()
                    &&& b.width == width
                    &&& b.height == height
                    &&& b.data@ == zeros(byte_len(width, height))
                },
                Err(e) => !drawable(width, height) && e.reports(Fault::BufferSize),
            },
    {
        if width == 0 || height == 0 || width > MAX_DIM || height > MAX_DIM {
            return Err(Fault::BufferSize.error());
        }
        assert(4 * (width as int) * (height as int) <= 4 * 32767 * 32767) by (nonlinear_arith)
            requires
                0 < width <= 32767,
                0 < height <= 32767,
        ;
        let n: usize = 4 * (width as usize) * (height as usize);
        let data: Vec<u8> = vec![0u8; n];
        assert(data@ =~= zeros(byte_len(width, height)));
        Ok(Buffer { width, height, data })
    }

    pub fn width(&self) -> (r: u32)
        ensures
            r == self.width,
    {
        self.width
    }

    pub fn height(&self) -> (r: u32)
        ensures
            r == self.height,
    {
        self.height
    }
}

/// The greater of two sizes.
pub open spec fn larger(a: u32, b: u32) -> u32 {
    if a >= b {
        a
    } else {
        b
    }
}

/// What a source is merged onto: the destination itself where it is large
/// enough; else a fully transparent buffer `width` by `height`, with the
/// destination drawn into its top left corner.
pub open spec fn merge_base(a: Buffer, width: u32, height: u32, behind: bool) -> Seq<u8> {
    if a.width == width && a.height == height {
        a.data@
    } else if a.is_empty() {
        zeros(byte_len(width, height))
    } else {
        drawn_over(
            zeros(byte_len(width, height)),
            width,
            height,
            a.data@,
            a.width,
            a.height,
            0,
            0,
            behind,
        )
    }
}

/// The size of a buffer `width` by `height` after it has been grown to
/// cover `bounds`: each side reaches at least to the far edge of the
/// rectangle, and is never less than it was.
pub open spec fn expanded_size(width: u32, height: u32, bounds: Rect) -> (int, int) {
    let bw = pixels_ceil_spec(bounds.right as int);
    let bh = pixels_ceil_spec(bounds.bottom as int);
    (
        if bw > width { bw } else { width as int },
        if bh > height { bh } else { height as int },
    )
}

fn greater(a: u32, b: u32) -> (r: u32)
    ensures
        r == larger(a, b),
{
    if a >= b {
        a
    } else {
        b
    }
}

/// Grows `pixmap` so that it covers `bounds`, keeping what it holds in its
/// top left corner.  A buffer that covers the rectangle already comes back
/// as it is.  It fails where the grown buffer would be empty or beyond
/// [`MAX_DIM`].
pub fn expand_pixmap(bounds: &Rect, pixmap: Buffer) -> (r: AppResult<Buffer>)
    requires
        pixmap.wf(),
    ensures
        ({
            let (w, h) = expanded_size(pixmap.width, pixmap.height, *bounds);
            let grows = w != pixmap.width || h != pixmap.height;
            match r {
                Ok(res) => {
                    &&& res.wf()
                    &&& res.width == w
                    &&& res.height == h
                    &&& !grows ==> res.data@ == pixmap.data@
                    &&& grows ==> drawable(res.width, res.height)
                    &&& grows ==> res.data@ == merge_base(pixmap, res.width, res.height, false)
                },
                Err(e) => {
                    &&& grows
                    &&& !(0 < w <= MAX_DIM && 0 < h <= MAX_DIM)
                    &&& e.reports(Fault::BufferSize)
                },
            }
        }),
{
    let bw = to_pixels_ceil(bounds.right);
    let bh = to_pixels_ceil(bounds.bottom);
    if bw > pixmap.width || bh > pixmap.height {
        let w = greater(bw, pixmap.width);
        let h = greater(bh, pixmap.height);
        let mut grown = match Buffer::new(w, h) {
            Ok(b) => b,
            Err(e) => {
                return Err(e);
            },
        };
        if pixmap.width > 0 && pixmap.height > 0 {
            draw_onto(
                &mut grown.data,
                w,
                h,
                &pixmap.data,
                pixmap.width,
                pixmap.height,
                0,
                0,
                BlendMode::SourceOver,
                None,
            );
        }
        Ok(grown)
    } else {
        Ok(pixmap)
    }
}

/// Draws `b` onto `a` with its top left corner at `(x, y)`, over it or
/// behind it, and returns the result.  The destination is first grown to
/// the greater width and the greater height of the two.  Through a mask,
/// only what lies within the path is drawn.
///
/// Merging a buffer without pixels changes nothing.  The merge fails where
/// the source, placed at its offset, leaves the pixel range.
pub fn merge_pixmap(
    a: Buffer,
    b: &Buffer,
    x: i32,
    y: i32,
    mode: BlendMode,
    mask: Option<&tiny_skia::Path>,
) -> (r: AppResult<Buffer>)
    requires
        a.wf(),
        b.wf(),
    ensures
        match r {
            Ok(res) => {
                &&& res.wf()
                &&& b.is_empty() ==> res.width == a.width && res.height == a.height && res.data@
                    == a.data@
                &&& !b.is_empty() ==> {
                    &&& x + b.width <= i32::MAX && y + b.height <= i32::MAX
                    &&& res.width == larger(a.width, b.width)
                    &&& res.height == larger(a.height, b.height)
                    &&& mask.is_none() ==> res.data@ == drawn_over(
                        merge_base(a, res.width, res.height, mode == BlendMode::DestinationOver),
                        res.width,
                        res.height,
                        b.data@,
                        b.width,
                        b.height,
                        x,
                        y,
                        mode == BlendMode::DestinationOver,
                    )
                }
            },
            Err(e) => {
                &&& !b.is_empty()
                &&& x + b.width > i32::MAX || y + b.height > i32::MAX
                &&& e.reports(Fault::MergeOutOfRange)
            },
        },
{
    if b.width == 0 || b.height == 0 {
        return Ok(a);
    }
    if x as i64 + b.width as i64 > i32::MAX as i64 || y as i64 + b.height as i64 > i32::MAX as i64 {
        return Err(Fault::MergeOutOfRange.error());
    }
    let mut target = if b.width > a.width || b.height > a.height {
        let w = greater(a.width, b.width);
        let h = greater(a.height, b.height);
        let mut grown = match Buffer::new(w, h) {
            Ok(g) => g,
            Err(e) => {
                return Err(e);
            },
        };
        if a.width > 0 && a.height > 0 {
            draw_onto(&mut grown.data, w, h, &a.data, a.width, a.height, 0, 0, mode, None);
        }
        grown
    } else {
        a
    };
    match mask {
        None => draw_onto(
            &mut target.data,
            target.width,
            target.height,
            &b.data,
            b.width,
            b.height,
            x,
            y,
            mode,
            None,
        ),
        Some(path) => {
            let clip = mask_of(target.width, target.height, path);
            draw_onto(
                &mut target.data,
                target.width,
                target.height,
                &b.data,
                b.width,
                b.height,
                x,
                y,
                mode,
                Some(&clip),
            )
        },
    }
    Ok(target)
}

/// The bytes of `pixmap` cropped to `bounds`: a fully transparent raster
/// as large as the rectangle, with `pixmap` drawn onto it so that the
/// pixel at the top left corner of the rectangle comes to lie at the
/// origin.
pub open spec fn clipped(pixmap: Buffer, bounds: Rect) -> Seq<u8> {
    let w = pixels_ceil_spec(bounds.spec_width()) as u32;
    let h = pixels_ceil_spec(bounds.spec_height()) as u32;
    if pixmap.is_empty() {
        zeros(byte_len(w, h))
    } else {
        drawn_over(
            zeros(byte_len(w, h)),
            w,
            h,
            pixmap.data@,
            pixmap.width,
            pixmap.height,
            (-whole_pixels_spec(bounds.left as int)) as i32,
            (-whole_pixels_spec(bounds.top as int)) as i32,
            false,
        )
    }
}

/// Crops `pixmap` to `bounds`: a new buffer as large as the rectangle,
/// holding what `pixmap` holds within it.  It fails for a rectangle that
/// covers no pixel or is beyond [`MAX_DIM`].
pub fn clip_pixmap(pixmap: &Buffer, bounds: &Rect) -> (r: AppResult<Buffer>)
    requires
        pixmap.wf(),
        bounds.wf(),
    ensures
        ({
            let w = pixels_ceil_spec(bounds.spec_width());
            let h = pixels_ceil_spec(bounds.spec_height());
            match r {
                Ok(res) => {
                    &&& res.wf()
                    &&& res.width == w
                    &&& res.height == h
                    &&& drawable(res.width, res.height)
                    &&& res.data@ == clipped(*pixmap, *bounds)
                },
                Err(e) => {
                    &&& !(0 < w <= MAX_DIM && 0 < h <= MAX_DIM)
                    &&& e.reports(Fault::BufferSize)
                },
            }
        }),
{
    let w = to_pixels_ceil(bounds.width());
    let h = to_pixels_ceil(bounds.height());
    let mut cut = match Buffer::new(w, h) {
        Ok(b) => b,
        Err(e) => {
            return Err(e);
        },
    };
    if pixmap.width > 0 && pixmap.height > 0 {
        let x = -whole_pixels(bounds.left);
        let y = -whole_pixels(bounds.top);
        draw_onto(
            &mut cut.data,
            w,
            h,
            &pixmap.data,
            pixmap.width,
            pixmap.height,
            x,
            y,
            BlendMode::SourceOver,
            None,
        );
    }
    Ok(cut)
}

/// Growing a buffer for one rectangle and then for another gives the size
/// that growing it for both at once gives, whichever comes first: however
/// many siblings are merged, the buffer ends up no larger than what
/// covers them all.  Growing never makes a buffer smaller.
pub proof fn lemma_expand_converges(width: u32, height: u32, a: Rect, b: Rect)
    requires
        a.wf(),
        b.wf(),
        width <= MAX_DIM,
        height <= MAX_DIM,
    ensures
        ({
            let first = expanded_size(width, height, a);
            let both = expanded_size(first.0 as u32, first.1 as u32, b);
            let other = expanded_size(width, height, b);
            let swapped = expanded_size(other.0 as u32, other.1 as u32, a);
            &&& both == expanded_size(width, height, a.spec_union(&b))
            &&& both == swapped
            &&& first.0 >= width && first.1 >= height
            &&& both.0 >= first.0 && both.1 >= first.1
        }),
{
}

} // verus!
