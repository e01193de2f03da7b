//! The window of banners: its margins from the screen edges it is anchored to, and the
//! pointer events it collects for the banners.
use vstd::prelude::*;

use crate::config::general::Anchor;
use crate::layout::RectSize;

verus! {

/// The margins of the window from the screen edges.
#[derive(Debug, Clone, Copy, PartialEq, Eq, Structural)]
pub struct Margin {
    pub left: usize,
    pub right: usize,
    pub top: usize,
    pub bottom: usize,
}

/// The offsets that an anchor gives: `y` from the top or bottom edge and `x` from the left or
/// right edge it touches.
pub open spec fn anchored_margin(x: usize, y: usize, anchor: Anchor) -> Margin {
    Margin {
        top: if crate::config::general::anchor_is_top(anchor) {
            y
        } else {
            0
        },
        bottom: if crate::config::general::anchor_is_bottom(anchor) {
            y
        } else {
            0
        },
        left: if crate::config::general::anchor_is_left(anchor) {
            x
        } else {
            0
        },
        right: if crate::config::general::anchor_is_right(anchor) {
            x
        } else {
            0
        },
    }
}

impl Margin {
    pub fn new() -> (r: Margin)
        ensures
            r == (Margin { left: 0, right: 0, top: 0, bottom: 0 }),
    {
        Margin { left: 0, right: 0, top: 0, bottom: 0 }
    }

    /// Uses the anchor to tell which edges the offsets are taken from.
    pub fn with_anchor(x: usize, y: usize, anchor: &Anchor) -> (r: Margin)
        ensures
            r == anchored_margin(x, y, *anchor),
    {
        let mut margin = Margin::new();
        if anchor.is_top() {
            margin.top = y;
        }
        if anchor.is_bottom() {
            margin.bottom = y;
        }
        if anchor.is_left() {
            margin.left = x;
        }
        if anchor.is_right() {
            margin.right = x;
        }
        margin
    }

    /// The size of the window with its margins.
    pub fn apply_to_size(&self, extent: RectSize) -> (r: RectSize)
        requires
            extent.width + self.left + self.right <= usize::MAX,
            extent.height + self.top + self.bottom <= usize::MAX,
        ensures
            r.width == extent.width + self.left + self.right,
            r.height == extent.height + self.top + self.bottom,
    {
        RectSize {
            width: extent.width + self.left + self.right,
            height: extent.height + self.top + self.bottom,
        }
    }
}

/// A mouse button.
#[derive(Debug, Clone, Copy, PartialEq, Eq, Structural)]
pub enum MouseButton {
    Left,
    Right,
    Middle,
}

/// The button that an evdev code names: 272 left, 273 right, 274 middle.
pub open spec fn spec_button(code: u32) -> Option<MouseButton> {
    if code == 272 {
        Some(MouseButton::Left)
    } else if code == 273 {
        Some(MouseButton::Right)
    } else if code == 274 {
        Some(MouseButton::Middle)
    } else {
        None
    }
}

pub fn get_button(code: u32) -> (r: Option<MouseButton>)
    ensures
        r == spec_button(code),
{
    match code {
        272 => Some(MouseButton::Left),
        273 => Some(MouseButton::Right),
        274 => Some(MouseButton::Middle),
        _ => None,
    }
}

/// What the pointer did.
#[derive(Debug, Clone, Copy, PartialEq, Eq, Structural)]
pub enum PointerEventKind {
    Hover,
    MouseDown { button: MouseButton },
    MouseUp { button: MouseButton },
}

/// A pointer event at a position of the window.
#[derive(Debug, Clone, Copy, PartialEq, Eq)]
pub struct PointerEvent<P> {
    pub position: P,
    pub kind: PointerEventKind,
}

/// The pointer over the window: the events not handled yet, its position, and whether it is
/// inside the window.
#[derive(Debug)]
pub struct PointerState<P> {
    pub events: Vec<PointerEvent<P>>,
    pub position: P,
    pub entered: bool,
}

/// The events after a move: a move just after a move replaces it, else it is added.
pub open spec fn with_hover<P>(events: Seq<PointerEvent<P>>, position: P) -> Seq<PointerEvent<P>> {
    if events.len() > 0 && events.last().kind == PointerEventKind::Hover {
        events.update(events.len() - 1, PointerEvent { position, kind: PointerEventKind::Hover })
    } else {
        events.push(PointerEvent { position, kind: PointerEventKind::Hover })
    }
}

impl<P: Copy> PointerState<P> {
    pub fn new(position: P) -> (r: PointerState<P>)
        ensures
            r.events@ == Seq::<PointerEvent<P>>::empty(),
            r.position == position,
            !r.entered,
    {
        PointerState { events: Vec::new(), position, entered: false }
    }

    /// The pointer left the window.
    pub fn leave(&mut self)
        ensures
            !final(self).entered,
            final(self).events == old(self).events,
            final(self).position == old(self).position,
    {
        self.entered = false;
    }

    /// The pointer moved: see [`with_hover`].
    pub fn relocate(&mut self, position: P)
        ensures
            final(self).events@ == with_hover(old(self).events@, position),
            final(self).position == position,
            final(self).entered == old(self).entered,
    {
        self.position = position;
        let n = self.events.len();
        let hover = PointerEvent { position, kind: PointerEventKind::Hover };
        if n > 0 && self.events[n - 1].kind == PointerEventKind::Hover {
            self.events.set(n - 1, hover);
        } else {
            self.events.push(hover);
        }
    }

    /// The pointer entered the window at a position.
    pub fn enter(&mut self, position: P)
        ensures
            final(self).events@ == with_hover(old(self).events@, position),
            final(self).position == position,
            final(self).entered,
    {
        self.entered = true;
        self.relocate(position);
    }

    /// A button was pressed: recorded where the code names a button.
    pub fn press(&mut self, code: u32)
        ensures
            final(self).events@ == match spec_button(code) {
                Some(button) => old(self).events@.push(
                    PointerEvent {
                        position: old(self).position,
                        kind: PointerEventKind::MouseDown { button },
                    },
                ),
                None => old(self).events@,
            },
            final(self).position == old(self).position,
            final(self).entered == old(self).entered,
    {
        if let Some(button) = get_button(code) {
            self.events.push(
                PointerEvent { position: self.position, kind: PointerEventKind::MouseDown { button } },
            );
        }
    }

    /// A button was released: recorded where the code names a button.
    pub fn release(&mut self, code: u32)
        ensures
            final(self).events@ == match spec_button(code) {
                Some(button) => old(self).events@.push(
                    PointerEvent {
                        position: old(self).position,
                        kind: PointerEventKind::MouseUp { button },
                    },
                ),
                None => old(self).events@,
            },
            final(self).position == old(self).position,
            final(self).entered == old(self).entered,
    {
        if let Some(button) = get_button(code) {
            self.events.push(
                PointerEvent { position: self.position, kind: PointerEventKind::MouseUp { button } },
            );
        }
    }

    /// Whether there is something for the banners to handle: the pointer is inside, or
    /// events wait.
    pub fn has_work(&self) -> (r: bool)
        ensures
            r == (self.entered || self.events@.len() > 0),
    {
        self.entered || self.events.len() > 0
    }
}

/// The button state of the pointer, where a button pressed later does not hide one of
/// higher priority: left over right over middle.
#[derive(Debug, Clone, Copy, PartialEq, Eq, Structural)]
pub enum PrioritiedPressState {
    Unpressed,
    Lmb,
    Rmb,
    Mmb,
}

/// The priority of a state: left 3, right 2, middle 1, none 0.
pub open spec fn press_priority(s: PrioritiedPressState) -> nat {
    match s {
        PrioritiedPressState::Lmb => 3,
        PrioritiedPressState::Rmb => 2,
        PrioritiedPressState::Mmb => 1,
        PrioritiedPressState::Unpressed => 0,
    }
}

/// What an update gives: the new state where it has a higher priority, else the old one;
/// an unpressed state takes any new one.
pub open spec fn spec_press_update(old: PrioritiedPressState, new: PrioritiedPressState) -> PrioritiedPressState {
    match old {
        PrioritiedPressState::Unpressed => new,
        _ => if press_priority(new) > press_priority(old) {
            new
        } else {
            old
        },
    }
}

impl Default for PrioritiedPressState {
    fn default() -> (r: PrioritiedPressState)
        ensures
            r == PrioritiedPressState::Unpressed,
    {
        PrioritiedPressState::Unpressed
    }
}

impl PrioritiedPressState {
    pub fn update(&mut self, new_state: PrioritiedPressState)
        ensures
            *final(self) == spec_press_update(*old(self), new_state),
    {
        match *self {
            PrioritiedPressState::Lmb => {},
            PrioritiedPressState::Rmb => {
                if let PrioritiedPressState::Lmb = new_state {
                    *self = new_state;
                }
            },
            PrioritiedPressState::Mmb => {
                match new_state {
                    PrioritiedPressState::Lmb | PrioritiedPressState::Rmb => *self = new_state,
                    _ => {},
                }
            },
            PrioritiedPressState::Unpressed => *self = new_state,
        }
    }

    pub fn clear(&mut self)
        ensures
            *final(self) == PrioritiedPressState::Unpressed,
    {
        *self = PrioritiedPressState::Unpressed;
    }
}

} // verus!

verus! {

/// The larger of two press priorities.
pub open spec fn max_press(a: PrioritiedPressState, b: PrioritiedPressState) -> nat {
    if press_priority(a) < press_priority(b) {
        press_priority(b)
    } else {
        press_priority(a)
    }
}

/// After presses, the state is the button of highest priority pressed, whatever their order.
pub proof fn law_press_priority(
    s: PrioritiedPressState,
    a: PrioritiedPressState,
    b: PrioritiedPressState,
)
    ensures
        press_priority(spec_press_update(s, a)) == max_press(s, a),
        spec_press_update(spec_press_update(s, a), b) == spec_press_update(
            spec_press_update(s, b),
            a,
        ),
        spec_press_update(spec_press_update(s, a), a) == spec_press_update(s, a),
{
}

} // verus!
