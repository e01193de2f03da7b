//! The widget tree of a banner: laying images, texts and containers out, and placing them.
use noti::config::spacing::Spacing;
use noti::layout::{Alignment, Direction, Offset, Position, RectSize};
use noti::text_layout::{EllipsizeAt, Glyph, TextJustification, TextRect};
use noti::widget::{Container, WImage, Widget};

fn spacing(top: u8, right: u8, bottom: u8, left: u8) -> Spacing {
    Spacing { top, right, bottom, left }
}

fn image(width: usize, height: usize, margin: Spacing) -> Widget {
    Widget::Image(WImage { image: Some(RectSize::new(width, height)), margin, rect_size: None })
}

fn container(direction: Direction, alignment: Alignment, padding: Spacing, elements: Vec<Widget>) -> Container {
    Container { rect_size: None, spacing: padding, direction, alignment, elements }
}

fn glyph(ch: char) -> Glyph {
    Glyph { ch, advance_width: 10, is_empty: ch == ' ' }
}

fn text(content: &str) -> Widget {
    let glyphs: Vec<Glyph> = content.chars().map(glyph).collect();
    Widget::Text(TextRect::from_glyphs(&glyphs, 5, 20, glyph('~'), EllipsizeAt::End, TextJustification::Left))
}

#[test]
fn an_image_keeps_its_margin_where_it_fits() {
    let mut w = image(20, 10, spacing(2, 3, 4, 5));
    w.compile(RectSize::new(100, 100));
    assert_eq!(w.width(), 28);
    assert_eq!(w.height(), 16);
    match &w {
        Widget::Image(i) => assert_eq!(i.margin, spacing(2, 3, 4, 5)),
        _ => panic!("the image was dropped"),
    }
}

#[test]
fn an_image_larger_than_its_space_becomes_unknown() {
    let mut w = image(120, 10, Spacing::default());
    w.compile(RectSize::new(100, 100));
    assert!(w.is_unknown());
    assert_eq!(w.width(), 0);
    let mut none = Widget::Image(WImage { image: None, margin: Spacing::default(), rect_size: None });
    none.compile(RectSize::new(100, 100));
    assert!(none.is_unknown());
}

#[test]
fn an_image_margin_shrinks_to_fit() {
    // 90 + 10 + 10 is 10 more than 100: each side gives half of it.
    let mut w = image(90, 10, spacing(0, 10, 0, 10));
    w.compile(RectSize::new(100, 100));
    assert_eq!(w.width(), 100);
    match &w {
        Widget::Image(i) => assert_eq!(i.margin, spacing(0, 5, 0, 5)),
        _ => panic!("the image was dropped"),
    }
}

#[test]
fn a_vertical_container_stacks_its_elements() {
    let mut c = container(
        Direction::Vertical,
        Alignment::new(Position::Start, Position::Start),
        spacing(1, 2, 3, 4),
        vec![image(20, 10, Spacing::default()), image(30, 15, Spacing::default())],
    );
    c.compile(RectSize::new(100, 100));
    assert_eq!(c.rect_size, Some(RectSize::new(100, 100)));
    assert_eq!(c.elements.len(), 2);
    assert_eq!(c.width(), 30);
    assert_eq!(c.height(), 25);
    assert_eq!(c.main_len(), 25);
    assert_eq!(c.auxiliary_len(), 30);
}

#[test]
fn elements_that_do_not_fit_are_dropped() {
    // The first image takes 60 of the 100 across; the second, 50 wide, no longer fits.
    let mut c = container(
        Direction::Horizontal,
        Alignment::new(Position::Start, Position::Start),
        Spacing::default(),
        vec![image(60, 10, Spacing::default()), image(50, 10, Spacing::default()), image(40, 20, Spacing::default())],
    );
    c.compile(RectSize::new(100, 50));
    assert_eq!(c.elements.len(), 2);
    assert_eq!(c.width(), 100);
    assert_eq!(c.height(), 20);
}

#[test]
fn a_text_takes_the_width_it_is_given() {
    let mut c = container(
        Direction::Vertical,
        Alignment::new(Position::Start, Position::Start),
        Spacing::default(),
        vec![text("ab cd ef"), image(10, 10, Spacing::default())],
    );
    c.compile(RectSize::new(50, 100));
    assert_eq!(c.elements.len(), 2);
    // Two lines of 20 for the text, then the image.
    assert_eq!(c.height(), 50);
    assert_eq!(c.width(), 50);
    assert!(!c.elements[0].is_container());
}

#[test]
fn elements_are_placed_along_the_direction() {
    let mut c = container(
        Direction::Horizontal,
        Alignment::new(Position::Start, Position::Center),
        spacing(10, 0, 10, 5),
        vec![image(20, 10, Spacing::default()), image(30, 20, Spacing::default())],
    );
    c.compile(RectSize::new(100, 60));
    let offsets = c.element_offsets(&Offset::new(1, 2));
    // Inside the spacing the space is 95 by 40; each image is centered across it.
    assert_eq!(offsets, vec![Offset::new(6, 27), Offset::new(26, 22)]);
}

#[test]
fn spread_elements_share_the_space_left() {
    let mut c = container(
        Direction::Vertical,
        Alignment::new(Position::End, Position::SpaceBetween),
        Spacing::default(),
        vec![image(10, 10, Spacing::default()), image(20, 10, Spacing::default()), image(30, 10, Spacing::default())],
    );
    c.compile(RectSize::new(40, 100));
    let offsets = c.element_offsets(&Offset::no_offset());
    // 70 of the 100 are left, 35 between each two elements; each ends at the right side.
    assert_eq!(offsets, vec![Offset::new(30, 0), Offset::new(20, 45), Offset::new(10, 90)]);
}

#[test]
fn a_centered_column_starts_below_the_middle() {
    let mut c = container(
        Direction::Vertical,
        Alignment::new(Position::Start, Position::Center),
        Spacing::default(),
        vec![image(10, 10, Spacing::default())],
    );
    c.compile(RectSize::new(40, 100));
    assert_eq!(c.main_axis_alignment(), Position::Center);
    assert_eq!(c.auxiliary_axis_alignment(), Position::Start);
    assert_eq!(c.element_offsets(&Offset::no_offset()), vec![Offset::new(0, 45)]);
}

#[test]
fn a_nested_container_starts_at_the_side() {
    let inner = container(
        Direction::Horizontal,
        Alignment::new(Position::Start, Position::Start),
        Spacing::default(),
        vec![image(10, 10, Spacing::default())],
    );
    let mut c = container(
        Direction::Vertical,
        Alignment::new(Position::Center, Position::Start),
        Spacing::default(),
        vec![Widget::Container(inner), image(10, 10, Spacing::default())],
    );
    c.compile(RectSize::new(40, 100));
    assert!(c.elements[0].is_container());
    assert_eq!(c.element_offsets(&Offset::no_offset()), vec![Offset::new(0, 0), Offset::new(15, 10)]);
}
