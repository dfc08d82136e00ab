use canvas_render::color::Rgba;
use canvas_render::compositing::Buffer;
use canvas_render::graphic::{Align, DrawnText};
use canvas_render::metrics::{Position, Rect};
use canvas_render::text::{
    allocate, can_paint, join_suffix, stamp_glyph, GlyphBounds, LetterGlyph, LetterPixel, Row,
    Shaped, Text,
};
use canvas_render::utils::ErrorKind;

fn glyph(width: i32) -> LetterGlyph {
    LetterGlyph {
        bounds: GlyphBounds { min_x: 0, min_y: 0, max_x: width, max_y: 10 },
        pixels: vec![],
    }
}

fn glyphs(widths: &[i32]) -> Vec<LetterGlyph> {
    widths.iter().map(|w| glyph(*w)).collect()
}

fn row(start: usize, end: usize, suffix: bool, width: i64) -> Row {
    Row { start, end, suffix, width }
}

fn text(content: &str) -> Text {
    Text {
        content: content.to_string(),
        color: Rgba(0, 0, 0, 255),
        size: 16 * 64,
        font: None,
        line_height: None,
        position: None,
        suffix: None,
        max_rows: None,
        align: None,
        shadow: None,
        shaped: None,
    }
}

#[test]
fn glyphs_that_fit_make_one_row() {
    let rows = allocate(&glyphs(&[10, 10, 10]), &None, 999, 30);
    assert_eq!(rows, vec![row(0, 3, false, 30)]);
}

#[test]
fn no_glyphs_make_no_row() {
    assert_eq!(allocate(&vec![], &Some(glyph(5)), 1, 100), vec![]);
}

#[test]
fn overflow_starts_a_new_row() {
    let rows = allocate(&glyphs(&[10, 10, 10, 10, 10]), &None, 999, 25);
    assert_eq!(rows, vec![row(0, 2, false, 20), row(2, 4, false, 20), row(4, 5, false, 10)]);
}

#[test]
fn single_row_is_truncated_with_the_suffix() {
    let rows = allocate(&glyphs(&[10, 10, 10, 10, 10]), &Some(glyph(8)), 1, 35);
    assert_eq!(rows, vec![row(0, 2, true, 28)]);
    assert!(rows[0].width <= 35);
}

#[test]
fn truncation_keeps_one_glyph_even_if_the_suffix_does_not_fit() {
    let rows = allocate(&glyphs(&[10, 10, 10]), &Some(glyph(30)), 1, 25);
    assert_eq!(rows, vec![row(0, 1, true, 40)]);
}

#[test]
fn truncation_without_suffix_drops_the_rest() {
    let rows = allocate(&glyphs(&[10, 10, 10]), &None, 1, 25);
    assert_eq!(rows, vec![row(0, 2, false, 20)]);
}

#[test]
fn last_allowed_row_is_the_one_truncated() {
    let rows = allocate(&glyphs(&[10, 10, 10, 10, 10, 10]), &Some(glyph(5)), 2, 25);
    assert_eq!(rows, vec![row(0, 2, false, 20), row(2, 4, true, 25)]);
}

#[test]
fn a_glyph_wider_than_the_room_gets_a_row_of_its_own() {
    let rows = allocate(&glyphs(&[40, 10]), &None, 999, 25);
    assert_eq!(rows, vec![row(0, 0, false, 0), row(0, 1, false, 40), row(1, 2, false, 10)]);
}

#[test]
fn empty_text_occupies_the_positioning_bounds() {
    let pos = Rect::from_xywh(640, 1280, 0, 0).unwrap();
    let layout = Rect::from_xywh(0, 0, 6400, 6400).unwrap();
    let (drawn, bounds) = text("").draw(pos, layout).unwrap();
    assert!(drawn.is_none());
    assert_eq!(bounds, pos);
}

#[test]
fn unshaped_text_is_refused() {
    let pos = Rect::empty();
    let err = text("abc").draw(pos, pos).unwrap_err();
    assert_eq!(err.kind, ErrorKind::ConfigurationInvalid);
    assert_eq!(err.to_text(), "text.font: the content was not shaped");
}

#[test]
fn text_rows_are_placed_and_bounded() {
    let mut t = text("abcde");
    t.line_height = Some(20 * 64);
    t.shaped = Some(Shaped { glyphs: glyphs(&[10, 10, 10, 10, 10]), suffix: None, font_height: 12 });
    let pos = Rect::from_xywh(5 * 64, 7 * 64, 0, 0).unwrap();
    let layout = Rect::from_xywh(0, 0, 30 * 64, 100 * 64).unwrap();
    let (drawn, bounds) = t.draw(pos, layout).unwrap();
    let drawn = drawn.unwrap();
    assert_eq!(drawn.rows, vec![row(0, 2, false, 20), row(2, 4, false, 20), row(4, 5, false, 10)]);
    assert_eq!(drawn.starts, vec![5, 5, 5]);
    assert_eq!(drawn.top, 11);
    assert_eq!(drawn.line_height, 20);
    assert_eq!(bounds, Rect::from_xywh(5 * 64, 11 * 64, 20 * 64, 60 * 64).unwrap());
}

#[test]
fn aligned_rows_start_relative_to_the_anchor() {
    let mut t = text("abc");
    t.align = Some(Align::Center);
    t.shaped = Some(Shaped { glyphs: glyphs(&[10, 10, 10]), suffix: None, font_height: 16 });
    let pos = Rect::empty();
    let layout = Rect::from_xywh(0, 0, 100 * 64, 100 * 64).unwrap();
    let (drawn, bounds) = t.draw(pos, layout).unwrap();
    assert_eq!(drawn.unwrap().starts, vec![35]);
    assert_eq!(bounds, Rect::from_xywh(35 * 64, 0, 30 * 64, 16 * 64).unwrap());

    t.align = Some(Align::Right);
    t.position = Some(Position { x: Some(10 * 64), y: None });
    let (drawn, _) = t.draw(pos, layout).unwrap();
    assert_eq!(drawn.unwrap().starts, vec![60]);
}

#[test]
fn suffix_glyphs_are_joined_in_place() {
    let a = LetterGlyph {
        bounds: GlyphBounds { min_x: 2, min_y: 10, max_x: 5, max_y: 14 },
        pixels: vec![LetterPixel(0, 0, 255), LetterPixel(1, 2, 128)],
    };
    let b = LetterGlyph {
        bounds: GlyphBounds { min_x: 6, min_y: 8, max_x: 9, max_y: 14 },
        pixels: vec![LetterPixel(0, 0, 7), LetterPixel(0, 3, 9)],
    };
    let joined = join_suffix(&vec![a, b]).unwrap();
    assert_eq!(joined.bounds, GlyphBounds { min_x: 2, min_y: 10, max_x: 9, max_y: 14 });
    assert_eq!(
        joined.pixels,
        vec![LetterPixel(0, 0, 255), LetterPixel(1, 2, 128), LetterPixel(4, 1, 9)]
    );
    assert!(join_suffix(&vec![]).is_none());
}

#[test]
fn a_glyph_pixel_takes_the_color_through_its_coverage() {
    let g = LetterGlyph {
        bounds: GlyphBounds { min_x: 0, min_y: 1, max_x: 2, max_y: 3 },
        pixels: vec![LetterPixel(1, 0, 255), LetterPixel(0, 1, 128), LetterPixel(9, 9, 255)],
    };
    let mut data = vec![0u8; 4 * 4 * 4];
    stamp_glyph(&mut data, 4, &g, 1, 0, Rgba(200, 100, 50, 255));
    let at = |x: usize, y: usize| {
        let i = 4 * (4 * y + x);
        (data[i], data[i + 1], data[i + 2], data[i + 3])
    };
    assert_eq!(at(2, 1), (200, 100, 50, 255));
    assert_eq!(at(1, 2), (100, 50, 25, 128));
    assert_eq!(at(0, 0), (0, 0, 0, 0));
    assert_eq!(data.iter().filter(|b| **b != 0).count(), 8);
}

#[test]
fn text_is_painted_row_by_row() {
    let dot = |w: i32| LetterGlyph {
        bounds: GlyphBounds { min_x: 0, min_y: 0, max_x: w, max_y: 1 },
        pixels: vec![LetterPixel(0, 0, 255)],
    };
    let shaped = Shaped { glyphs: vec![dot(2), dot(2), dot(2)], suffix: Some(dot(1)), font_height: 1 };
    let drawn = DrawnText {
        rows: vec![row(0, 2, false, 4), row(2, 3, true, 3)],
        starts: vec![1, 0],
        top: 0,
        line_height: 2,
        color: Rgba(9, 8, 7, 255),
        shadow: None,
    };
    assert!(can_paint(&shaped, &drawn));
    let mut buffer = Buffer::new(6, 4).unwrap();
    Text::paint(&shaped, &drawn, &mut buffer).unwrap();
    let lit: Vec<usize> = (0..24).filter(|i| buffer.data[4 * i + 3] == 255).collect();
    assert_eq!(lit, vec![1, 3, 12, 14]);
    assert_eq!(&buffer.data[4..8], &[9, 8, 7, 255]);
}

#[test]
fn rows_that_do_not_fit_the_glyphs_are_not_painted() {
    let shaped = Shaped { glyphs: glyphs(&[2]), suffix: None, font_height: 1 };
    let drawn = DrawnText {
        rows: vec![row(0, 2, false, 4)],
        starts: vec![0],
        top: 0,
        line_height: 2,
        color: Rgba(9, 8, 7, 255),
        shadow: None,
    };
    assert!(!can_paint(&shaped, &drawn));
    let mut buffer = Buffer::new(2, 2).unwrap();
    let err = Text::paint(&shaped, &drawn, &mut buffer).unwrap_err();
    assert_eq!(err.kind, ErrorKind::ConfigurationInvalid);
    assert_eq!(err.to_text(), "text.content: the rows do not fit the shaped glyphs");
    assert_eq!(buffer.data, vec![0u8; 16]);
}
