use canvas_render::arc::Arc;
use canvas_render::canvas::{Canvas, CanvasConfiguration};
use canvas_render::color::{Color, ColorStop, GradientStopPosition, LinearGradient, Rgba};
use canvas_render::compositing::{expand_pixmap, merge_pixmap, BlendMode, Buffer};
use canvas_render::container::{Border, Container, Corner};
use canvas_render::effects::BoxShadow;
use canvas_render::graphic::{Align, DrawResult, Drawn, DrawnContainer, Frame, Graphic, Step};
use canvas_render::line::Line;
use canvas_render::metrics::{Padding, Position, Rect, Size};
use canvas_render::path::{Outline, PathSegment};
use canvas_render::shader::Shader;
use canvas_render::text::{GlyphBounds, LetterGlyph, LetterPixel, Shaped, Text};
use canvas_render::utils::{ErrorKind, Fault};

fn px(v: i32) -> i32 {
    v * 64
}

fn rect(x: i32, y: i32, w: i32, h: i32) -> Rect {
    Rect::from_xywh(px(x), px(y), px(w), px(h)).unwrap()
}

fn container() -> Container {
    Container {
        corner: None,
        color: None,
        shadow: None,
        position: None,
        size: None,
        border: None,
        children: None,
        padding: None,
        align: None,
        clip: false,
    }
}

fn sized(x: i32, y: i32, w: i32, h: i32) -> Container {
    Container {
        position: Some(Position::new(px(x), px(y))),
        size: Some(Size::new(px(w), px(h))),
        ..container()
    }
}

fn drawn_container(result: DrawResult) -> (DrawnContainer, Rect) {
    match result {
        DrawResult(Drawn::Container(dc), bounds) => (dc, bounds),
        DrawResult(other, _) => panic!("no container: {:?}", other),
    }
}

fn skia_path(outline: &Outline) -> tiny_skia::Path {
    let f = |v: i64| v as f32 / 64.0;
    let mut pb = tiny_skia::PathBuilder::new();
    for segment in outline.segments.iter() {
        match segment {
            PathSegment::MoveTo(p) => pb.move_to(f(p.x), f(p.y)),
            PathSegment::LineTo(p) => pb.line_to(f(p.x), f(p.y)),
            PathSegment::CubicTo(a, b, p) => pb.cubic_to(f(a.x), f(a.y), f(b.x), f(b.y), f(p.x), f(p.y)),
            PathSegment::Close => pb.close(),
        }
    }
    pb.finish().unwrap()
}

fn fill(buffer: &mut Buffer, path: &tiny_skia::Path, color: Rgba) {
    let mut paint = tiny_skia::Paint::default();
    paint.anti_alias = true;
    paint.shader =
        tiny_skia::Shader::SolidColor(tiny_skia::Color::from_rgba8(color.0, color.1, color.2, color.3));
    let mut target =
        tiny_skia::PixmapMut::from_bytes(&mut buffer.data, buffer.width, buffer.height).unwrap();
    target.fill_path(
        path,
        &paint,
        tiny_skia::FillRule::Winding,
        tiny_skia::Transform::identity(),
        None,
    );
}

fn paint_boxes(dc: &DrawnContainer, pixmap: Buffer) -> Buffer {
    let mut children = Buffer::new(pixmap.width, pixmap.height).unwrap();
    for child in dc.children.iter() {
        if let Drawn::Container(inner) = child {
            children = paint_boxes(inner, children);
        }
    }
    let path = skia_path(&dc.path);
    let mut pixmap = expand_pixmap(&dc.bounds, pixmap).unwrap();
    if let Some(Shader::SolidColor(color)) = &dc.shader {
        fill(&mut pixmap, &path, *color);
    }
    let mask = if dc.clip { Some(&path) } else { None };
    merge_pixmap(pixmap, &children, 0, 0, BlendMode::SourceOver, mask).unwrap()
}

fn pixel(buffer: &Buffer, x: u32, y: u32) -> [u8; 4] {
    let i = 4 * (y * buffer.width + x) as usize;
    [buffer.data[i], buffer.data[i + 1], buffer.data[i + 2], buffer.data[i + 3]]
}

#[test]
fn red_rounded_square_on_a_white_canvas() {
    let child = Container {
        corner: Some(Corner(px(10), px(10), px(10), px(10))),
        color: Some(Color::Rgba(Rgba(255, 0, 0, 255))),
        ..sized(10, 10, 50, 50)
    };
    let root = Container {
        color: Some(Color::Rgba(Rgba(255, 255, 255, 255))),
        children: Some(vec![Graphic::Container(child)]),
        ..sized(0, 0, 200, 100)
    };
    let scene = CanvasConfiguration { font_set: None, graphic: root };
    let (dc, bounds) = drawn_container(scene.build().unwrap());
    assert_eq!(bounds, rect(0, 0, 200, 100));
    let (inner, inner_bounds) = match &dc.children[0] {
        Drawn::Container(inner) => (inner, inner.bounds),
        other => panic!("no container: {:?}", other),
    };
    assert_eq!(inner_bounds, rect(10, 10, 50, 50));
    assert_eq!(inner.corner, Corner(px(10), px(10), px(10), px(10)));

    let painted = paint_boxes(&dc, Canvas::new().pixmap);
    let canvas = Canvas::draw(&painted, &bounds).unwrap();
    assert_eq!((canvas.pixmap.width, canvas.pixmap.height), (200, 100));
    assert_eq!(pixel(&canvas.pixmap, 35, 35), [255, 0, 0, 255]);
    assert_eq!(pixel(&canvas.pixmap, 10, 10), [255, 255, 255, 255]);
    assert_eq!(pixel(&canvas.pixmap, 0, 0), [255, 255, 255, 255]);
    assert_eq!(pixel(&canvas.pixmap, 199, 99), [255, 255, 255, 255]);
    assert_eq!(pixel(&canvas.pixmap, 30, 10), [255, 0, 0, 255]);
    assert_eq!(pixel(&canvas.pixmap, 60, 35), [255, 255, 255, 255]);
}

#[test]
fn it_works() {
    let child = Container {
        corner: Some(Corner(px(24), px(24), px(24), px(24))),
        color: Some(Color::Rgba(Rgba(255, 0, 0, 120))),
        ..sized(30, 30, 400, 300)
    };
    let root = Container {
        color: Some(Color::Rgba(Rgba(255, 255, 0, 200))),
        children: Some(vec![Graphic::Container(child)]),
        ..sized(0, 0, 1200, 800)
    };
    let scene = CanvasConfiguration { font_set: None, graphic: root };
    let (dc, bounds) = drawn_container(scene.build().unwrap());
    let painted = paint_boxes(&dc, Canvas::new().pixmap);
    let buff = Canvas::draw(&painted, &bounds).unwrap().export().unwrap();
    let back = tiny_skia::Pixmap::decode_png(&buff).unwrap();
    assert_eq!((back.width(), back.height()), (1200, 800));
}

#[test]
fn horizontal_line_is_as_high_as_its_stroke() {
    let line = Line {
        from: Some(Position::new(0, 0)),
        to: Some(Position::new(px(100), 0)),
        width: px(4),
        ..Line::default()
    };
    let (drawn, bounds) = line.draw(Rect::empty(), Rect::empty()).unwrap();
    assert_eq!(bounds.height(), px(4));
    assert_eq!(bounds.width(), px(100));
    assert_eq!(bounds, Rect::from_ltrb(0, -128, 6400, 128).unwrap());
    assert_eq!(drawn.canvas, (104, 4));
    assert_eq!(drawn.color, Rgba(0, 0, 0, 255));
    assert_eq!(drawn.path.segments.len(), 2);
}

#[test]
fn vertical_and_slanted_lines_reach_half_a_stroke_out() {
    let mut line = Line {
        from: Some(Position::new(px(5), px(5))),
        to: Some(Position::new(px(5), px(25))),
        width: px(2),
        ..Line::default()
    };
    let (_, bounds) = line.draw(Rect::empty(), Rect::empty()).unwrap();
    assert_eq!(bounds, rect(4, 5, 2, 20));
    line.to = Some(Position::new(px(15), px(25)));
    let (_, bounds) = line.draw(Rect::empty(), Rect::empty()).unwrap();
    assert_eq!(bounds, rect(4, 4, 12, 22));
}

#[test]
fn line_ends_fall_back_to_the_bounds() {
    let line = Line { to: Some(Position { x: Some(px(10)), y: None }), ..Line::default() };
    let frame = Frame::new(rect(3, 4, 0, 0), rect(1, 2, 50, 50));
    assert_eq!(line.from(&frame).x, Some(px(3)));
    assert_eq!(line.from(&frame).y, Some(px(4)));
    assert_eq!(line.to(&frame).x, Some(px(11)));
    assert_eq!(line.to(&frame).y, Some(px(4)));
}

#[test]
fn line_beyond_the_coordinate_range_is_refused() {
    let line =
        Line { to: Some(Position::new(i32::MAX, 0)), width: px(1), ..Line::default() };
    assert_eq!(
        line.draw(Rect::empty(), Rect::empty()).unwrap_err().kind,
        ErrorKind::GeometryInvalid
    );
}

#[test]
fn arcs_fail_with_their_own_error() {
    assert_eq!(Arc::default().draw().unwrap_err().kind, ErrorKind::UnimplementedVariant);
    let node = Graphic::Arc(Arc::default());
    assert_eq!(
        node.draw(Rect::empty(), Rect::empty()).unwrap_err().kind,
        ErrorKind::UnimplementedVariant
    );
    let root = Container { children: Some(vec![Graphic::Arc(Arc::default())]), ..sized(0, 0, 10, 10) };
    assert_eq!(
        root.draw(Rect::empty(), Rect::empty()).unwrap_err().kind,
        ErrorKind::UnimplementedVariant
    );
}

#[test]
fn container_without_height_wraps_its_child() {
    let child = sized(0, 0, 30, 20);
    let root = Container {
        padding: Some(Padding(px(1), px(2), px(3), px(4))),
        children: Some(vec![Graphic::Container(Container { position: None, ..child })]),
        position: Some(Position::new(px(10), px(10))),
        size: Some(Size { width: Some(px(100)), height: None }),
        ..container()
    };
    let (dc, bounds) = root.draw(Rect::empty(), Rect::empty()).unwrap();
    assert_eq!(bounds, rect(10, 10, 100, 24));
    assert_eq!(dc.frame.children_bounds, rect(14, 11, 30, 20));
    match &dc.children[0] {
        Drawn::Container(inner) => assert_eq!(inner.bounds, rect(14, 11, 30, 20)),
        other => panic!("no container: {:?}", other),
    }
}

#[test]
fn container_without_width_takes_the_layout_width_and_its_padding() {
    let root = Container { padding: Some(Padding(0, px(2), 0, px(4))), ..container() };
    let frame = Frame::new(rect(7, 8, 0, 0), rect(5, 5, 50, 40));
    assert_eq!(root.width(&frame), px(56));
    assert_eq!(root.height(&frame), 0);
    assert_eq!(root.x(&frame), px(7));
    assert_eq!(root.y(&frame), px(8));
}

#[test]
fn empty_container_without_size_has_no_extent() {
    let (dc, bounds) = container().draw(rect(3, 4, 0, 0), Rect::empty()).unwrap();
    assert_eq!(bounds, rect(3, 4, 0, 0));
    assert!(dc.children.is_empty());
    assert!(dc.shader.is_none());
    assert!(dc.path.is_closed());
}

#[test]
fn siblings_follow_one_another() {
    let first = Container { size: Some(Size::new(px(10), px(10))), ..container() };
    let second = Container { size: Some(Size::new(px(5), px(5))), ..container() };
    let third = sized(1, 2, 3, 4);
    let root = Container {
        children: Some(vec![
            Graphic::Container(first),
            Graphic::Container(second),
            Graphic::Container(third),
        ]),
        padding: Some(Padding(px(2), px(2), px(2), px(2))),
        ..sized(0, 0, 100, 100)
    };
    let (dc, bounds) = root.draw(Rect::empty(), Rect::empty()).unwrap();
    assert_eq!(bounds, rect(0, 0, 100, 100));
    let boxes: Vec<Rect> = dc
        .children
        .iter()
        .map(|d| match d {
            Drawn::Container(inner) => inner.bounds,
            other => panic!("no container: {:?}", other),
        })
        .collect();
    assert_eq!(boxes, vec![rect(2, 2, 10, 10), rect(12, 12, 5, 5), rect(3, 4, 3, 4)]);
    assert_eq!(dc.frame.children_bounds, rect(2, 2, 15, 15));
}

#[test]
fn aligned_containers_are_placed_within_the_layout_bounds() {
    let frame = Frame::new(Rect::empty(), rect(10, 0, 100, 50));
    let mut node = Container { size: Some(Size::new(px(20), px(10))), ..container() };
    node.align = Some(Align::Center);
    assert_eq!(node.x(&frame), px(50));
    node.align = Some(Align::Right);
    assert_eq!(node.x(&frame), px(90));
    node.position = Some(Position { x: Some(px(5)), y: Some(px(6)) });
    assert_eq!(node.x(&frame), px(85));
    assert_eq!(node.y(&frame), px(6));
    node.align = None;
    assert_eq!(node.x(&frame), px(15));
    assert_eq!(Align::default(), Align::Left);
}

#[test]
fn padding_larger_than_the_box_is_refused() {
    let root = Container { padding: Some(Padding(0, px(6), 0, px(6))), ..sized(0, 0, 10, 10) };
    assert_eq!(
        root.draw(Rect::empty(), Rect::empty()).unwrap_err().kind,
        ErrorKind::GeometryInvalid
    );
    let frame = Frame::new(Rect::empty(), Rect::empty());
    assert_eq!(root.children_layout_bounds(&frame).unwrap_err().kind, ErrorKind::GeometryInvalid);
}

#[test]
fn children_area_is_the_box_inside_its_padding() {
    let root = Container { padding: Some(Padding(px(1), px(2), px(3), px(4))), ..sized(10, 20, 100, 50) };
    let frame = Frame::new(Rect::empty(), Rect::empty());
    assert_eq!(
        root.children_layout_bounds(&frame).unwrap(),
        Rect::from_ltrb(px(14) as i64, px(21) as i64, px(108) as i64, px(67) as i64).unwrap()
    );
    assert_eq!(root.padding().top(), px(1));
    assert_eq!(root.padding().right(), px(2));
    assert_eq!(root.padding().bottom(), px(3));
    assert_eq!(root.padding().left(), px(4));
}

#[test]
fn container_paint_is_its_color_or_its_gradient() {
    let frame = Frame::new(Rect::empty(), Rect::empty());
    let mut node = sized(0, 0, 100, 50);
    match node.paint(&frame).unwrap() {
        Shader::SolidColor(c) => assert_eq!(c, Rgba(255, 255, 255, 0)),
        other => panic!("no solid color: {:?}", other),
    }
    match node.color() {
        Color::Rgba(c) => assert_eq!(c, Rgba(255, 255, 255, 0)),
        other => panic!("no solid color: {:?}", other),
    }
    let stop = ColorStop { position: GradientStopPosition::Percent(5000), color: Rgba(1, 2, 3, 4) };
    node.color = Some(Color::Gradient(LinearGradient { angle: 180 * 64, stops: vec![stop] }));
    match node.paint(&frame).unwrap() {
        Shader::LinearGradient { start, end, stops } => {
            assert_eq!((start.x, start.y), (3200, 0));
            assert_eq!((end.x, end.y), (3200, 3200));
            assert_eq!(stops.len(), 1);
        }
        other => panic!("no gradient: {:?}", other),
    }
    node.size = Some(Size::new(px(100), 0));
    assert_eq!(node.paint(&frame).unwrap_err().kind, ErrorKind::GeometryInvalid);
    assert_eq!(
        node.draw(Rect::empty(), Rect::empty()).unwrap_err().kind,
        ErrorKind::GeometryInvalid
    );
}

#[test]
fn container_keeps_border_shadow_and_clip() {
    let node = Container {
        border: Some(Border { width: px(2), color: Rgba(1, 1, 1, 255) }),
        shadow: Some(BoxShadow { x: 0, y: px(2), spread: 0, blur: px(4), color: Rgba(0, 0, 0, 50) }),
        clip: true,
        corner: Some(Corner(px(100), 0, 0, 0)),
        ..sized(0, 0, 40, 20)
    };
    let (dc, bounds) = node.draw(Rect::empty(), Rect::empty()).unwrap();
    assert_eq!(bounds, rect(0, 0, 40, 20));
    assert_eq!(dc.corner, Corner(px(10), 0, 0, 0));
    assert_eq!(dc.border.unwrap().width, px(2));
    assert!(dc.clip);
    let plan = dc.shadow.unwrap();
    assert_eq!(plan.silhouette, rect(0, 2, 40, 20));
    assert_eq!(plan.canvas, (40, 22));
    assert_eq!(dc.path.bounds(), Some(bounds));
}

#[test]
fn text_inside_a_container_moves_the_cursor() {
    let glyph = |w: i32| LetterGlyph {
        bounds: GlyphBounds { min_x: 0, min_y: 0, max_x: w, max_y: 8 },
        pixels: vec![LetterPixel(0, 0, 255)],
    };
    let text = Text {
        content: "ab".to_string(),
        color: Rgba(0, 0, 0, 255),
        size: px(10),
        font: None,
        line_height: None,
        position: None,
        suffix: None,
        max_rows: None,
        align: None,
        shadow: None,
        shaped: Some(Shaped { glyphs: vec![glyph(6), glyph(6)], suffix: None, font_height: 10 }),
    };
    let follower = Container { size: Some(Size::new(px(4), px(4))), ..container() };
    let root = Container {
        children: Some(vec![Graphic::Text(text), Graphic::Container(follower)]),
        ..sized(0, 0, 50, 50)
    };
    let (dc, _) = root.draw(Rect::empty(), Rect::empty()).unwrap();
    match &dc.children[0] {
        Drawn::Text(t) => assert_eq!(t.rows.len(), 1),
        other => panic!("no text: {:?}", other),
    }
    match &dc.children[1] {
        Drawn::Container(inner) => assert_eq!(inner.bounds, rect(12, 10, 4, 4)),
        other => panic!("no container: {:?}", other),
    }
}

#[test]
fn every_node_kind_draws_through_the_same_trait() {
    fn boxed<T: canvas_render::graphic::Draw>(node: &T) -> Result<Rect, ErrorKind> {
        match canvas_render::graphic::Draw::draw(node, Rect::empty(), rect(0, 0, 10, 10)) {
            Ok(DrawResult(_, bounds)) => Ok(bounds),
            Err(e) => Err(e.kind),
        }
    }
    assert_eq!(boxed(&sized(1, 1, 2, 2)), Ok(rect(1, 1, 2, 2)));
    assert_eq!(boxed(&Graphic::Container(sized(1, 1, 2, 2))), Ok(rect(1, 1, 2, 2)));
    assert_eq!(boxed(&Graphic::Arc(Arc::default())), Err(ErrorKind::UnimplementedVariant));
    let line = Line { to: Some(Position::new(px(4), 0)), width: px(2), ..Line::default() };
    assert_eq!(boxed(&line), Ok(Rect::from_ltrb(0, -64, 256, 64).unwrap()));
    let text = Text {
        content: String::new(),
        color: Rgba(0, 0, 0, 255),
        size: px(10),
        font: None,
        line_height: None,
        position: None,
        suffix: None,
        max_rows: None,
        align: None,
        shadow: None,
        shaped: None,
    };
    assert_eq!(boxed(&text), Ok(Rect::empty()));
}

#[test]
fn default_container_is_an_empty_box_at_the_origin() {
    let node = Container::default();
    let (dc, bounds) = node.draw(rect(5, 5, 0, 0), rect(1, 1, 9, 9)).unwrap();
    assert_eq!(bounds, rect(1, 1, 0, 0));
    assert_eq!(Drawn::Container(dc).steps(), vec![Step::Children, Step::Grow, Step::MergeChildren { clip: false }]);
}

#[test]
fn painting_steps_follow_what_a_node_has() {
    let node = Container {
        border: Some(Border { width: px(2), color: Rgba(1, 1, 1, 255) }),
        shadow: Some(BoxShadow { x: 0, y: 0, spread: 0, blur: px(4), color: Rgba(0, 0, 0, 50) }),
        color: Some(Color::Rgba(Rgba(1, 2, 3, 255))),
        clip: true,
        ..sized(0, 0, 40, 20)
    };
    let (dc, _) = node.draw(Rect::empty(), Rect::empty()).unwrap();
    assert_eq!(
        Drawn::Container(dc).steps(),
        vec![
            Step::Children,
            Step::BoxShadow,
            Step::Grow,
            Step::Fill,
            Step::Border,
            Step::MergeChildren { clip: true },
        ]
    );
    let line = Line { to: Some(Position::new(px(4), 0)), ..Line::default() };
    let (dl, _) = line.draw(Rect::empty(), Rect::empty()).unwrap();
    assert_eq!(Drawn::Line(dl).steps(), vec![Step::Stroke, Step::Merge]);
    assert_eq!(Drawn::Nothing.steps(), vec![]);
}

#[test]
fn container_wraps_its_child_wherever_the_child_lies() {
    let child = sized(0, 10, 50, 30);
    let root = Container {
        children: Some(vec![Graphic::Container(child)]),
        size: Some(Size { width: Some(px(100)), height: None }),
        padding: Some(Padding(px(2), 0, px(3), 0)),
        ..container()
    };
    let (dc, bounds) = root.draw(Rect::empty(), Rect::empty()).unwrap();
    assert_eq!(dc.frame.children_bounds, rect(0, 12, 50, 30));
    assert_eq!(bounds, rect(0, 0, 100, 35));
    assert_eq!(root.height(&dc.frame), px(30 + 2 + 3));
}

#[test]
fn container_without_children_is_as_high_as_its_padding() {
    let root = Container {
        size: Some(Size { width: Some(px(10)), height: None }),
        padding: Some(Padding(px(2), 0, px(3), 0)),
        ..container()
    };
    let (dc, bounds) = root.draw(rect(4, 4, 0, 0), Rect::empty()).unwrap();
    assert_eq!(dc.frame.children_bounds, Rect::empty());
    assert_eq!(bounds, rect(4, 4, 10, 5));
    assert_eq!(root.draw_children(Rect::empty()).unwrap().1, None);
}

#[test]
fn outline_of_a_container_is_made_of_any_radii() {
    let node = Container { corner: Some(Corner(-px(5), px(500), 0, i32::MIN)), ..sized(1, 2, 10, 20) };
    let frame = Frame::new(Rect::empty(), Rect::empty());
    let outline = node.path(&frame).unwrap();
    assert!(outline.is_closed());
    let n = outline.segments.len();
    assert_eq!(outline.segments[0], PathSegment::MoveTo(canvas_render::path::Point { x: 64, y: 768 }));
    assert_eq!(
        outline.segments[n - 2],
        PathSegment::LineTo(canvas_render::path::Point { x: 64, y: 768 })
    );
    assert_eq!(outline.segments[n - 1], PathSegment::Close);
    assert_eq!(
        node.draw(Rect::empty(), Rect::empty()).unwrap_err().to_text(),
        "container.size: the outline leaves the coordinate range"
    );
}

#[test]
fn errors_name_the_node_and_the_field() {
    let text_of = |r: Result<(DrawnContainer, Rect), canvas_render::utils::AppError>| {
        let e = r.unwrap_err();
        (e.kind, e.to_text())
    };
    let padded = Container { padding: Some(Padding(0, px(6), 0, px(6))), ..sized(0, 0, 10, 10) };
    assert_eq!(
        text_of(padded.draw(Rect::empty(), Rect::empty())),
        (
            ErrorKind::GeometryInvalid,
            "container.padding: the insets do not fit the box".to_string()
        )
    );
    let parent = Container { children: Some(vec![Graphic::Arc(Arc::default())]), ..sized(0, 0, 10, 10) };
    assert_eq!(
        text_of(parent.draw(Rect::empty(), Rect::empty())),
        (ErrorKind::UnimplementedVariant, "arc: drawing is not implemented".to_string())
    );
    let shadowed = Container {
        shadow: Some(BoxShadow { x: i32::MAX, y: 0, spread: 0, blur: 0, color: Rgba(0, 0, 0, 9) }),
        ..sized(0, 0, 10, 10)
    };
    assert_eq!(
        text_of(shadowed.draw(Rect::empty(), Rect::empty())),
        (
            ErrorKind::GeometryInvalid,
            "container.shadow: the silhouette leaves the coordinate range".to_string()
        )
    );
    let gradient = Container {
        color: Some(Color::Gradient(LinearGradient { angle: 0, stops: vec![] })),
        ..sized(0, 0, 10, 0)
    };
    assert_eq!(
        text_of(gradient.draw(Rect::empty(), Rect::empty())),
        (
            ErrorKind::GeometryInvalid,
            "container.color: a gradient needs a box with width and height".to_string()
        )
    );
    let line = Line { to: Some(Position::new(i32::MAX, 0)), width: px(1), ..Line::default() };
    assert_eq!(
        line.draw(Rect::empty(), Rect::empty()).unwrap_err().to_text(),
        "line.to: the stroke leaves the coordinate range"
    );
    let every = [
        Fault::PaddingTooLarge,
        Fault::OutlineOutOfRange,
        Fault::ShadowOutOfRange,
        Fault::GradientOnEmptyBox,
        Fault::LineOutOfRange,
        Fault::TextNotShaped,
        Fault::TextOutOfRange,
        Fault::RowsDoNotFit,
        Fault::ArcNotImplemented,
        Fault::BufferSize,
        Fault::MergeOutOfRange,
        Fault::ShadowArea,
        Fault::ShadowBuffer,
        Fault::ExportFailed,
    ];
    for fault in every {
        assert!(fault.error().to_text().contains(':'));
    }
    assert_eq!(Fault::TextNotShaped.error().kind, ErrorKind::ConfigurationInvalid);
    assert_eq!(Fault::ShadowBuffer.error().kind, ErrorKind::EffectFailure);
    assert_eq!(Fault::BufferSize.error().kind, ErrorKind::ResourceInitFailure);
}
