//! Sizes, offsets, alignment, container planes, image fitting, window margins and pointer
//! state.
use noti::config::general::Anchor;
use noti::config::spacing::Spacing;
use noti::layout::{compile_image, ContainerPlane, Direction, Offset, Position, RectSize};
use noti::window::{
    get_button, Margin, MouseButton, PointerEvent, PointerEventKind, PointerState,
    PrioritiedPressState,
};

fn spacing(top: u8, right: u8, bottom: u8, left: u8) -> Spacing {
    Spacing { top, right, bottom, left }
}

#[test]
fn sizes_and_offsets() {
    let mut size = RectSize::new(100, 50);
    assert_eq!(size.area(), 5000);
    assert_eq!(size.plus(RectSize::new_width(5)), RectSize::new(105, 50));
    size.shrink_by(&spacing(10, 20, 45, 90));
    assert_eq!(size, RectSize::new(0, 0));
    let mut size = RectSize::new(100, 50);
    size.shrink_by(&spacing(1, 2, 3, 4));
    assert_eq!(size, RectSize::new(94, 46));
    assert_eq!(Offset::new_x(3).plus(Offset::new_y(4)), Offset::new(3, 4));
    assert_eq!(Offset::from_spacing(&spacing(1, 2, 3, 4)), Offset::new(4, 1));
    assert_eq!(Offset::no_offset(), Offset::new(0, 0));
}

#[test]
fn initial_positions() {
    assert_eq!(Position::Start.compute_initial_pos(100, 30), 0);
    assert_eq!(Position::SpaceBetween.compute_initial_pos(100, 30), 0);
    assert_eq!(Position::Center.compute_initial_pos(100, 30), 35);
    assert_eq!(Position::End.compute_initial_pos(100, 30), 70);
    assert_eq!(Position::Center.compute_initial_pos(101, 31), 35);
}

#[test]
fn planes_along_a_direction() {
    let p = ContainerPlane::new(RectSize::new(30, 10), Direction::Vertical);
    assert_eq!((p.main_len, p.auxiliary_len), (10, 30));
    assert_eq!(p.as_rect_size(), RectSize::new(30, 10));
    let mut q = ContainerPlane::new_only_offset(Offset::new(4, 9), Direction::Vertical);
    assert_eq!((q.main_axis_offset, q.auxiliary_axis_offset), (9, 4));
    assert_eq!(q.as_offset(), Offset::new(4, 9));
    q.relocate(&Offset::new(1, 2));
    assert_eq!(q.as_offset(), Offset::new(1, 2));
    let mut h = ContainerPlane::new(RectSize::new(30, 10), Direction::Horizontal);
    h.shrink_rect_size_by(&spacing(1, 2, 3, 4));
    assert_eq!(h.as_rect_size(), RectSize::new(24, 6));
    assert_eq!(Direction::Horizontal.orthogonalize(), Direction::Vertical);
}

#[test]
fn images_are_fitted_into_their_space() {
    let rect = RectSize::new(100, 50);
    assert_eq!(compile_image(None, rect, spacing(0, 0, 0, 0)), None);
    assert_eq!(compile_image(Some(RectSize::new(120, 10)), rect, spacing(0, 0, 0, 0)), None);
    let (size, margin) = compile_image(Some(RectSize::new(80, 40)), rect, spacing(5, 20, 10, 10)).unwrap();
    assert_eq!(margin, spacing(3, 15, 8, 5));
    assert_eq!(size, RectSize::new(100, 51));
    let (size, margin) = compile_image(Some(RectSize::new(90, 10)), rect, spacing(0, 30, 0, 2)).unwrap();
    assert_eq!(margin, spacing(0, 10, 0, 0));
    assert_eq!(size, RectSize::new(100, 10));
    let (size, margin) = compile_image(Some(RectSize::new(10, 10)), rect, spacing(1, 1, 1, 1)).unwrap();
    assert_eq!(margin, spacing(1, 1, 1, 1));
    assert_eq!(size, RectSize::new(12, 12));
}

#[test]
fn margins_follow_the_anchor() {
    let m = Margin::with_anchor(5, 7, &Anchor::TopRight);
    assert_eq!(m, Margin { left: 0, right: 5, top: 7, bottom: 0 });
    assert_eq!(m.apply_to_size(RectSize::new(100, 50)), RectSize::new(105, 57));
    let m = Margin::with_anchor(5, 7, &Anchor::Left);
    assert_eq!(m, Margin { left: 5, right: 0, top: 0, bottom: 0 });
    assert_eq!(Margin::new(), Margin { left: 0, right: 0, top: 0, bottom: 0 });
}

#[test]
fn pointer_events_are_collected() {
    assert_eq!(get_button(272), Some(MouseButton::Left));
    assert_eq!(get_button(274), Some(MouseButton::Middle));
    assert_eq!(get_button(275), None);
    let mut p: PointerState<(u32, u32)> = PointerState::new((0, 0));
    assert!(!p.has_work());
    p.enter((1, 1));
    p.relocate((2, 2));
    p.press(272);
    p.relocate((3, 3));
    p.press(999);
    p.release(273);
    p.leave();
    assert!(!p.entered);
    assert!(p.has_work());
    assert_eq!(
        p.events,
        vec![
            PointerEvent { position: (2, 2), kind: PointerEventKind::Hover },
            PointerEvent { position: (2, 2), kind: PointerEventKind::MouseDown { button: MouseButton::Left } },
            PointerEvent { position: (3, 3), kind: PointerEventKind::Hover },
            PointerEvent { position: (3, 3), kind: PointerEventKind::MouseUp { button: MouseButton::Right } },
        ]
    );
}

#[test]
fn press_state_keeps_the_button_of_highest_priority() {
    let mut s = PrioritiedPressState::default();
    s.update(PrioritiedPressState::Mmb);
    assert_eq!(s, PrioritiedPressState::Mmb);
    s.update(PrioritiedPressState::Rmb);
    assert_eq!(s, PrioritiedPressState::Rmb);
    s.update(PrioritiedPressState::Mmb);
    assert_eq!(s, PrioritiedPressState::Rmb);
    s.update(PrioritiedPressState::Lmb);
    s.update(PrioritiedPressState::Rmb);
    assert_eq!(s, PrioritiedPressState::Lmb);
    s.clear();
    assert_eq!(s, PrioritiedPressState::Unpressed);
}
