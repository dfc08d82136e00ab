use canvas_render::canvas::Canvas;
use canvas_render::color::Rgba;
use canvas_render::compositing::{clip_pixmap, expand_pixmap, merge_pixmap, BlendMode, Buffer, MAX_DIM};
use canvas_render::effects::{
    recolor, shade, split_channel, store_channel, BoxShadow, DropShadow,
};
use canvas_render::metrics::Rect;
use canvas_render::utils::ErrorKind;

fn filled(width: u32, height: u32, pixel: [u8; 4]) -> Buffer {
    let mut buffer = Buffer::new(width, height).unwrap();
    for chunk in buffer.data.chunks_mut(4) {
        chunk.copy_from_slice(&pixel);
    }
    buffer
}

fn pixel(buffer: &Buffer, x: u32, y: u32) -> [u8; 4] {
    let i = 4 * (y * buffer.width + x) as usize;
    [buffer.data[i], buffer.data[i + 1], buffer.data[i + 2], buffer.data[i + 3]]
}

fn px(v: i32) -> i32 {
    v * 64
}

#[test]
fn new_buffer_is_transparent() {
    let buffer = Buffer::new(3, 2).unwrap();
    assert_eq!((buffer.width(), buffer.height()), (3, 2));
    assert_eq!(buffer.data, vec![0u8; 24]);
}

#[test]
fn buffer_without_pixels_or_beyond_the_limit_cannot_be_made() {
    assert_eq!(Buffer::new(0, 5).unwrap_err().kind, ErrorKind::ResourceInitFailure);
    assert_eq!(Buffer::new(5, 0).unwrap_err().kind, ErrorKind::ResourceInitFailure);
    assert_eq!(Buffer::new(MAX_DIM + 1, 1).unwrap_err().kind, ErrorKind::ResourceInitFailure);
    assert_eq!(Buffer::new(1, MAX_DIM + 1).unwrap_err().kind, ErrorKind::ResourceInitFailure);
    assert_eq!(Buffer::empty().data.len(), 0);
}

#[test]
fn merging_a_buffer_without_pixels_changes_nothing() {
    let a = filled(3, 2, [10, 20, 30, 255]);
    let before = a.data.clone();
    let merged = merge_pixmap(a, &Buffer::empty(), 1, 1, BlendMode::SourceOver, None).unwrap();
    assert_eq!((merged.width, merged.height), (3, 2));
    assert_eq!(merged.data, before);
}

#[test]
fn merge_draws_the_source_at_its_offset() {
    let a = filled(4, 3, [0, 0, 255, 255]);
    let b = filled(2, 1, [255, 0, 0, 255]);
    let merged = merge_pixmap(a, &b, 1, 2, BlendMode::SourceOver, None).unwrap();
    assert_eq!((merged.width, merged.height), (4, 3));
    assert_eq!(pixel(&merged, 0, 2), [0, 0, 255, 255]);
    assert_eq!(pixel(&merged, 1, 2), [255, 0, 0, 255]);
    assert_eq!(pixel(&merged, 2, 2), [255, 0, 0, 255]);
    assert_eq!(pixel(&merged, 3, 2), [0, 0, 255, 255]);
    assert_eq!(pixel(&merged, 1, 1), [0, 0, 255, 255]);
}

#[test]
fn merge_behind_keeps_what_is_opaque() {
    let mut a = filled(2, 1, [0, 0, 255, 255]);
    a.data[4..8].copy_from_slice(&[0, 0, 0, 0]);
    let b = filled(2, 1, [255, 0, 0, 255]);
    let merged = merge_pixmap(a, &b, 0, 0, BlendMode::DestinationOver, None).unwrap();
    assert_eq!(pixel(&merged, 0, 0), [0, 0, 255, 255]);
    assert_eq!(pixel(&merged, 1, 0), [255, 0, 0, 255]);
}

#[test]
fn merge_grows_the_destination_to_the_larger_size() {
    let a = filled(2, 3, [0, 255, 0, 255]);
    let b = filled(4, 1, [255, 0, 0, 255]);
    let merged = merge_pixmap(a, &b, 0, 0, BlendMode::SourceOver, None).unwrap();
    assert_eq!((merged.width, merged.height), (4, 3));
    assert_eq!(pixel(&merged, 3, 0), [255, 0, 0, 255]);
    assert_eq!(pixel(&merged, 1, 1), [0, 255, 0, 255]);
    assert_eq!(pixel(&merged, 3, 2), [0, 0, 0, 0]);
}

#[test]
fn merge_onto_a_buffer_without_pixels() {
    let b = filled(2, 2, [1, 2, 3, 255]);
    let merged = merge_pixmap(Buffer::empty(), &b, 0, 0, BlendMode::SourceOver, None).unwrap();
    assert_eq!((merged.width, merged.height), (2, 2));
    assert_eq!(merged.data, b.data);
}

#[test]
fn merge_beyond_the_pixel_range_is_refused() {
    let a = filled(1, 1, [0, 0, 0, 255]);
    let b = filled(2, 2, [1, 2, 3, 255]);
    let err = merge_pixmap(a, &b, i32::MAX - 1, 0, BlendMode::SourceOver, None).unwrap_err();
    assert_eq!(err.kind, ErrorKind::GeometryInvalid);
}

#[test]
fn merge_through_a_mask_cuts_the_source() {
    let a = filled(4, 4, [0, 0, 255, 255]);
    let b = filled(4, 4, [255, 0, 0, 255]);
    let mut pb = tiny_skia::PathBuilder::new();
    pb.move_to(0.0, 0.0);
    pb.line_to(2.0, 0.0);
    pb.line_to(2.0, 4.0);
    pb.line_to(0.0, 4.0);
    pb.close();
    let mask = pb.finish().unwrap();
    let merged = merge_pixmap(a, &b, 0, 0, BlendMode::SourceOver, Some(&mask)).unwrap();
    assert_eq!(pixel(&merged, 0, 1), [255, 0, 0, 255]);
    assert_eq!(pixel(&merged, 1, 3), [255, 0, 0, 255]);
    assert_eq!(pixel(&merged, 2, 1), [0, 0, 255, 255]);
    assert_eq!(pixel(&merged, 3, 3), [0, 0, 255, 255]);
}

#[test]
fn expand_grows_to_cover_the_rectangle() {
    let a = filled(2, 2, [9, 9, 9, 255]);
    let bounds = Rect::from_xywh(px(1), px(1), px(3), px(2)).unwrap();
    let grown = expand_pixmap(&bounds, a).unwrap();
    assert_eq!((grown.width, grown.height), (4, 3));
    assert_eq!(pixel(&grown, 1, 1), [9, 9, 9, 255]);
    assert_eq!(pixel(&grown, 3, 2), [0, 0, 0, 0]);
}

#[test]
fn expand_rounds_a_partly_covered_pixel_up() {
    let a = filled(2, 2, [9, 9, 9, 255]);
    let bounds = Rect::from_ltrb(0, 0, (2 * 64 + 1) as i64, 64).unwrap();
    let grown = expand_pixmap(&bounds, a).unwrap();
    assert_eq!((grown.width, grown.height), (3, 2));
}

#[test]
fn expand_leaves_a_covering_buffer_alone() {
    let a = filled(5, 5, [9, 9, 9, 255]);
    let before = a.data.clone();
    let bounds = Rect::from_xywh(px(1), px(1), px(3), px(2)).unwrap();
    let same = expand_pixmap(&bounds, a).unwrap();
    assert_eq!((same.width, same.height), (5, 5));
    assert_eq!(same.data, before);
}

#[test]
fn expand_beyond_the_limit_is_refused() {
    let a = filled(1, 1, [9, 9, 9, 255]);
    let bounds = Rect::from_xywh(0, 0, px(40000), px(1)).unwrap();
    assert_eq!(expand_pixmap(&bounds, a).unwrap_err().kind, ErrorKind::ResourceInitFailure);
}

#[test]
fn clip_crops_to_the_rectangle() {
    let mut a = filled(4, 4, [0, 0, 255, 255]);
    let i = 4 * (2 * 4 + 1);
    a.data[i..i + 4].copy_from_slice(&[255, 0, 0, 255]);
    let bounds = Rect::from_xywh(px(1), px(2), px(2), px(2)).unwrap();
    let cut = clip_pixmap(&a, &bounds).unwrap();
    assert_eq!((cut.width, cut.height), (2, 2));
    assert_eq!(pixel(&cut, 0, 0), [255, 0, 0, 255]);
    assert_eq!(pixel(&cut, 1, 0), [0, 0, 255, 255]);
    assert_eq!(pixel(&cut, 1, 1), [0, 0, 255, 255]);
}

#[test]
fn clip_to_a_rectangle_without_extent_is_refused() {
    let a = filled(4, 4, [0, 0, 255, 255]);
    let bounds = Rect::from_xywh(px(1), px(2), 0, 0).unwrap();
    assert_eq!(clip_pixmap(&a, &bounds).unwrap_err().kind, ErrorKind::ResourceInitFailure);
}

#[test]
fn shading_premultiplies_the_color() {
    assert_eq!(shade(Rgba(10, 20, 30, 40), 255), (2, 3, 5, 40));
    assert_eq!(shade(Rgba(10, 20, 30, 255), 255), (10, 20, 30, 255));
    assert_eq!(shade(Rgba(255, 255, 255, 255), 0), (0, 0, 0, 0));
    assert_eq!(shade(Rgba(200, 100, 50, 128), 128), (50, 25, 13, 64));
}

#[test]
fn recolor_keeps_the_silhouette() {
    let mut data = vec![1, 2, 3, 255, 0, 0, 0, 0, 9, 9, 9, 128];
    recolor(&mut data, Rgba(200, 100, 50, 255));
    assert_eq!(data, vec![200, 100, 50, 255, 0, 0, 0, 0, 100, 50, 25, 128]);
}

#[test]
fn channels_are_split_and_stored() {
    let mut data = vec![1, 2, 3, 4, 5, 6, 7, 8];
    assert_eq!(split_channel(&data, 0), vec![1, 5]);
    assert_eq!(split_channel(&data, 3), vec![4, 8]);
    store_channel(&mut data, 1, &vec![20, 60]);
    assert_eq!(data, vec![1, 20, 3, 4, 5, 60, 7, 8]);
}

#[test]
fn drop_shadow_is_prepared_and_laid_behind() {
    let shadow = DropShadow { x: px(1), y: px(2), blur: px(1), color: Rgba(0, 0, 0, 128) };
    let mut source = Buffer::new(2, 2).unwrap();
    source.data[0..4].copy_from_slice(&[255, 0, 0, 255]);
    let cast = shadow.prepare(&source).unwrap();
    assert_eq!((cast.width, cast.height), (4, 5));
    assert_eq!(pixel(&cast, 0, 0), [0, 0, 0, 128]);
    assert_eq!(pixel(&cast, 1, 0), [0, 0, 0, 0]);
    let done = shadow.finish(source, &cast).unwrap();
    assert_eq!((done.width, done.height), (4, 5));
    assert_eq!(pixel(&done, 0, 0), [255, 0, 0, 255]);
    assert_eq!(pixel(&done, 1, 2), [0, 0, 0, 128]);
}

#[test]
fn drop_shadow_without_area_is_refused() {
    let shadow = DropShadow { x: px(-10), y: 0, blur: 0, color: Rgba(0, 0, 0, 128) };
    let source = Buffer::new(2, 2).unwrap();
    assert_eq!(shadow.prepare(&source).unwrap_err().kind, ErrorKind::EffectFailure);
}

#[test]
fn box_shadow_is_planned_around_the_moved_box() {
    let shadow = BoxShadow { x: px(2), y: px(4), spread: px(6), blur: px(3), color: Rgba(0, 0, 0, 99) };
    let bounds = Rect::from_xywh(px(10), px(10), px(20), px(10)).unwrap();
    let plan = shadow.plan(&bounds).unwrap();
    assert_eq!(plan.offset, (px(2), px(4)));
    assert_eq!(plan.silhouette, Rect::from_ltrb(px(9) as i64, px(11) as i64, px(35) as i64, px(27) as i64).unwrap());
    assert_eq!(plan.scale_x, (px(26) as i64, px(20) as i64));
    assert_eq!(plan.scale_y, (px(16) as i64, px(10) as i64));
    assert_eq!(plan.canvas, (41, 33));
    assert_eq!(plan.blur, px(3));
    assert_eq!(plan.color, Rgba(0, 0, 0, 99));
}

#[test]
fn box_shadow_beyond_the_coordinate_range_is_refused() {
    let shadow = BoxShadow { x: i32::MAX, y: 0, spread: 0, blur: 0, color: Rgba(0, 0, 0, 99) };
    let bounds = Rect::from_xywh(0, 0, px(20), px(10)).unwrap();
    assert_eq!(shadow.plan(&bounds).unwrap_err().kind, ErrorKind::GeometryInvalid);
}

#[test]
fn canvas_starts_with_one_pixel_and_exports_a_png() {
    let canvas = Canvas::new();
    assert_eq!((canvas.pixmap.width, canvas.pixmap.height), (1, 1));
    assert_eq!(canvas.pixmap.data, vec![0, 0, 0, 0]);
    let png = canvas.export().unwrap();
    assert_eq!(&png[0..8], &[0x89, b'P', b'N', b'G', 0x0d, 0x0a, 0x1a, 0x0a]);
    let back = tiny_skia::Pixmap::decode_png(&png).unwrap();
    assert_eq!((back.width(), back.height()), (1, 1));
}

#[test]
fn canvas_without_pixels_is_not_exported() {
    let canvas = Canvas { pixmap: Buffer::empty() };
    let err = canvas.export().unwrap_err();
    assert_eq!(err.kind, ErrorKind::ResourceInitFailure);
    assert_eq!(err.to_text(), "canvas.pixmap: the image cannot be encoded");
    let made = Buffer::new(0, 1).unwrap_err();
    assert_eq!(made.to_text(), "buffer.size: a buffer needs a width and a height within the limit");
}

#[test]
fn canvas_is_cropped_to_the_bounds_of_the_root() {
    let painted = filled(5, 5, [7, 7, 7, 255]);
    let bounds = Rect::from_xywh(0, 0, px(3), px(2)).unwrap();
    let canvas = Canvas::draw(&painted, &bounds).unwrap();
    assert_eq!((canvas.pixmap.width, canvas.pixmap.height), (3, 2));
    assert_eq!(pixel(&canvas.pixmap, 2, 1), [7, 7, 7, 255]);
    let png = canvas.export().unwrap();
    let back = tiny_skia::Pixmap::decode_png(&png).unwrap();
    assert_eq!(back.data(), &canvas.pixmap.data[..]);
}
