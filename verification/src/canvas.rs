//! The canvas of a scene: resolving its root, cropping the painted
//! buffer, and encoding it.

use vstd::prelude::*;
use std::collections::HashMap;
use crate::compositing::{byte_len, clip_pixmap, drawable, zeros, Buffer, MAX_DIM};
use crate::container::Container;
use crate::graphic::{container_drawn_ok, container_outcome, DrawResult, Drawn};
use crate::metrics::Rect;
use crate::utils::{AppResult, Fault};

verus! {

/// A scene as it is handed in: the fonts that its texts name, each with
/// the bytes of its font file, and the root box.
#[derive(Debug)]
pub struct CanvasConfiguration {
    pub font_set: Option<HashMap<String, Vec<u8>>>,
    pub graphic: Container,
}

/// The painted image of a scene.
#[derive(Debug)]
pub struct Canvas {
    pub pixmap: Buffer,
}

/// What the encoder makes of a raster of premultiplied pixels given by its
/// bytes, width and height: the bytes of a PNG file, or nothing where it
/// fails.
pub uninterp spec fn png_of(data: Seq<u8>, width: u32, height: u32) -> Option<Seq<u8>>;

/// `tiny_skia::PixmapRef::encode_png` on a raster given by its bytes.  Its
/// result depends on the raster alone: the bytes that come back, or the
/// failure, are what [`png_of`] names.  Nothing is said of which rasters
/// it fails on.
#[verifier::external_body]
fn encode(data: &Vec<u8>, width: u32, height: u32) -> (r: Option<Vec<u8>>)
    requires
        drawable(width, height),
        data@.len() == byte_len(width, height),
    ensures
        match r {
            Some(bytes) => png_of(data@, width, height) == Some(bytes@),
            None => png_of(data@, width, height).is_none(),
        },
{
    tiny_skia::PixmapRef::from_bytes(data, width, height).unwrap().encode_png().ok()
}

/// The rectangle without extent at the origin: what the root of a scene is
/// resolved against.
pub open spec fn no_bounds() -> Rect {
    Rect { left: 0, top: 0, right: 0, bottom: 0 }
}

impl CanvasConfiguration {
    /// Resolves the scene: the root box is drawn with no bounds given, so
    /// that it is placed and sized by its own description and its
    /// content.
    pub fn build(&self) -> (r: AppResult<DrawResult>)
        ensures
            match r {
                Ok(res) => {
                    &&& container_outcome(self.graphic, no_bounds(), no_bounds()) == Ok::<
                        Rect,
                        Fault,
                    >(res.1)
                    &&& res.1.wf()
                    &&& match res.0 {
                        Drawn::Container(dc) => container_drawn_ok(
                            self.graphic,
                            no_bounds(),
                            no_bounds(),
                            dc,
                        ),
                        _ => false,
                    }
                },
                Err(e) => match container_outcome(self.graphic, no_bounds(), no_bounds()) {
                    Err(fault) => e.reports(fault),
                    Ok(_) => false,
                },
            },
    {
        match self.graphic.draw(Rect::empty(), Rect::empty()) {
            Ok((dc, bounds)) => Ok(DrawResult(Drawn::Container(dc), bounds)),
            Err(e) => Err(e),
        }
    }
}

impl Canvas {
    /// A canvas of one transparent pixel, to start painting on.
    pub fn new() -> (r: Canvas)
        ensures
            r.pixmap.wf(),
            r.pixmap.width == 1,
            r.pixmap.height == 1,
            r.pixmap.data@ == zeros(4),
    {
        let data: Vec<u8> = vec![0u8, 0u8, 0u8, 0u8];
        assert(data@ =~= zeros(4));
        Canvas { pixmap: Buffer { width: 1, height: 1, data } }
    }

    /// The canvas of a painted scene: `painted` cropped to the box that the
    /// root occupies.  See [`clip_pixmap`].
    pub fn draw(painted: &Buffer, bounds: &Rect) -> (r: AppResult<Canvas>)
        requires
            painted.wf(),
            bounds.wf(),
        ensures
            match r {
                Ok(canvas) => {
                    &&& canvas.pixmap.wf()
                    &&& canvas.pixmap.width == crate::metrics::pixels_ceil_spec(bounds.spec_width())
                    &&& canvas.pixmap.height == crate::metrics::pixels_ceil_spec(
                        bounds.spec_height(),
                    )
                    &&& drawable(canvas.pixmap.width, canvas.pixmap.height)
                    &&& canvas.pixmap.data@ == crate::compositing::clipped(*painted, *bounds)
                },
                Err(e) => {
                    &&& !(0 < crate::metrics::pixels_ceil_spec(bounds.spec_width()) <= MAX_DIM && 0
                        < crate::metrics::pixels_ceil_spec(bounds.spec_height()) <= MAX_DIM)
                    &&& e.reports(Fault::BufferSize)
                },
            },
    {
        match clip_pixmap(painted, bounds) {
            Ok(pixmap) => Ok(Canvas { pixmap }),
            Err(e) => Err(e),
        }
    }

    /// The canvas as a PNG file.  It fails for a canvas without pixels,
    /// and where the encoder fails on its raster; else the file is what the
    /// encoder makes of the raster.
    pub fn export(&self) -> (r: AppResult<Vec<u8>>)
        requires
            self.pixmap.wf(),
        ensures
            r.is_ok() <==> !self.pixmap.is_empty() && png_of(
                self.pixmap.data@,
                self.pixmap.width,
                self.pixmap.height,
            ).is_some(),
            match r {
                Ok(bytes) => png_of(self.pixmap.data@, self.pixmap.width, self.pixmap.height)
                    == Some(bytes@),
                Err(e) => e.reports(Fault::ExportFailed),
            },
    {
        if self.pixmap.width == 0 || self.pixmap.height == 0 {
            return Err(Fault::ExportFailed.error());
        }
        match encode(&self.pixmap.data, self.pixmap.width, self.pixmap.height) {
            Some(bytes) => Ok(bytes),
            None => Err(Fault::ExportFailed.error()),
        }
    }
}

} // verus!
