use canvas_render::container::Corner;
use canvas_render::metrics::{
    clamp, fit, from_pixels, to_pixels, to_pixels_ceil, whole_pixels, Padding, Position, Rect, Size,
    Union, COORD_LIMIT, UNITS_PER_PIXEL,
};
use canvas_render::utils::{error_mapper, make_error, max, min, AppError, ErrorKind};

#[test]
fn corner_fit_takes_the_least() {
    let fitted = Corner(10, 200, 30, 0).get_fitted(&Size::new(100, 50));
    assert_eq!(fitted, Corner(10, 25, 25, 0));
}

#[test]
fn corner_fit_of_empty_box_is_zero() {
    let fitted = Corner(10, 20, 30, 40).get_fitted(&Size::new(0, 0));
    assert_eq!(fitted, Corner(0, 0, 0, 0));
}

#[test]
fn min_and_max_of_slices() {
    assert_eq!(min(&[3, -7, 12]), -7);
    assert_eq!(max(&[3, -7, 12]), 12);
    assert_eq!(min(&[5]), 5);
    assert_eq!(max(&[5]), 5);
}

#[test]
fn make_error_keeps_the_message() {
    let e = make_error("invalid options");
    assert_eq!(e.message, "invalid options");
    assert_eq!(e.kind, ErrorKind::ConfigurationInvalid);
    assert_eq!(e.to_text(), "invalid options");
}

#[test]
fn union_holds_both() {
    let a = Rect::from_ltrb(0, 0, 10, 10).unwrap();
    let b = Rect::from_ltrb(5, -5, 20, 8).unwrap();
    assert_eq!(a.union(&b), Rect::from_ltrb(0, -5, 20, 10).unwrap());
}

#[test]
fn corner_fit_keeps_a_radius_that_fits() {
    let fitted = Corner(3, 4, 5, 6).get_fitted(&Size::new(100, 100));
    assert_eq!(fitted, Corner(3, 4, 5, 6));
    assert_eq!(Corner(9, 9, 9, 9).get_fitted(&Size::new(7, 100)), Corner(3, 3, 3, 3));
    assert_eq!(Corner(9, 9, 9, 9).get_fitted(&Size { width: None, height: Some(50) }), Corner(0, 0, 0, 0));
    assert_eq!(Corner::default(), Corner(0, 0, 0, 0));
}

#[test]
fn error_mapper_prints_the_error() {
    let parse = "x".parse::<i32>().unwrap_err();
    let e = error_mapper(parse.clone());
    assert_eq!(e.message, parse.to_string());
    assert_eq!(e.kind, ErrorKind::ConfigurationInvalid);
    let made = AppError::new(ErrorKind::EffectFailure, "blur");
    assert_eq!(made.kind, ErrorKind::EffectFailure);
    assert_eq!(made.to_text(), "blur");
}

#[test]
fn open_axes_count_as_zero() {
    let p = Position { x: None, y: Some(3) };
    assert_eq!((p.x(), p.y()), (0, 3));
    let s = Size { width: Some(4), height: None };
    assert_eq!((s.width(), s.height()), (4, 0));
    let d = Position::default();
    assert_eq!((d.x, d.y), (Some(0), Some(0)));
    let z = Size::default();
    assert_eq!((z.width, z.height), (Some(0), Some(0)));
}

#[test]
fn positions_and_sizes_are_set_and_added() {
    let mut p = Position { x: None, y: None };
    p.set_x(5);
    p.set_y(-6);
    assert_eq!((p.x, p.y), (Some(5), Some(-6)));
    p.add_size(&Size::new(10, 20));
    assert_eq!((p.x, p.y), (Some(15), Some(14)));
    p.add_size(&Size::new(i32::MAX, i32::MIN));
    assert_eq!((p.x, p.y), (Some(i32::MAX), Some(i32::MIN + 14)));
    p.add_size(&Size::new(1, -15));
    assert_eq!((p.x, p.y), (Some(i32::MAX), Some(i32::MIN)));
    let mut s = Size { width: None, height: Some(2) };
    s.set_width(7);
    s.set_height(3);
    assert_eq!((s.width, s.height), (Some(7), Some(5)));
    let r = Rect::from_xywh(1, 2, 3, 4).unwrap();
    let from = Position::from_rect(&r);
    assert_eq!((from.x, from.y), (Some(1), Some(2)));
    let size = Size::from_rect(&r);
    assert_eq!((size.width, size.height), (Some(3), Some(4)));
}

#[test]
fn padding_names_its_four_edges() {
    let p = Padding(1, 2, 3, 4);
    assert_eq!((p.top(), p.right(), p.bottom(), p.left()), (1, 2, 3, 4));
    let d = Padding::default();
    assert_eq!((d.top(), d.right(), d.bottom(), d.left()), (0, 0, 0, 0));
}

#[test]
fn rectangles_need_ordered_edges_within_range() {
    let r = Rect::from_ltrb(-5, -6, 7, 8).unwrap();
    assert_eq!((r.left(), r.top(), r.right(), r.bottom()), (-5, -6, 7, 8));
    assert_eq!((r.width(), r.height()), (12, 14));
    assert_eq!(Rect::from_ltrb(1, 0, 0, 0), None);
    assert_eq!(Rect::from_ltrb(0, 1, 0, 0), None);
    assert_eq!(Rect::from_xywh(0, 0, -1, 0), None);
    assert_eq!(Rect::from_ltrb(0, 0, COORD_LIMIT as i64 + 1, 0), None);
    assert_eq!(Rect::from_xywh(i32::MAX, 0, i32::MAX, 0), None);
    assert!(Rect::from_ltrb(-(COORD_LIMIT as i64), 0, COORD_LIMIT as i64, 0).is_some());
    assert_eq!(Rect::empty(), Rect::from_xywh(0, 0, 0, 0).unwrap());
}

#[test]
fn union_is_the_same_in_any_order_and_grouping() {
    let a = Rect::from_ltrb(0, 0, 10, 10).unwrap();
    let b = Rect::from_ltrb(5, -5, 20, 8).unwrap();
    let c = Rect::from_ltrb(-3, 2, 4, 30).unwrap();
    assert_eq!(a.union(&b), b.union(&a));
    assert_eq!(a.union(&b).union(&c), a.union(&b.union(&c)));
    assert_eq!(a.union(&a), a);
}

#[test]
fn units_and_pixels() {
    assert_eq!(UNITS_PER_PIXEL, 64);
    assert_eq!(to_pixels(64), 1);
    assert_eq!(to_pixels(127), 1);
    assert_eq!(to_pixels(-64), 0);
    assert_eq!(to_pixels_ceil(65), 2);
    assert_eq!(to_pixels_ceil(64), 1);
    assert_eq!(to_pixels_ceil(0), 0);
    assert_eq!(to_pixels_ceil(-1), 0);
    assert_eq!(whole_pixels(-65), -1);
    assert_eq!(whole_pixels(-63), 0);
    assert_eq!(whole_pixels(130), 2);
    assert_eq!(from_pixels(-3), -192);
    assert_eq!(clamp(1 << 40), i32::MAX);
    assert_eq!(clamp(-(1 << 40)), i32::MIN);
    assert_eq!(clamp(-17), -17);
    assert_eq!(fit(COORD_LIMIT as i64), Some(COORD_LIMIT));
    assert_eq!(fit(COORD_LIMIT as i64 + 1), None);
    assert_eq!(fit(-(COORD_LIMIT as i64) - 1), None);
}
