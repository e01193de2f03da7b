//! The geometry of a banner's widgets: sizes, offsets, alignment along an axis, the plane of
//! a container seen along its direction, and the fitting of an image into its space.
use vstd::prelude::*;

use crate::config::spacing::{sat_sub, Spacing};

verus! {

/// A width and a height, in pixels.
#[derive(Debug, Clone, Copy, PartialEq, Eq, Structural)]
pub struct RectSize {
    pub width: usize,
    pub height: usize,
}

impl RectSize {
    pub fn new(width: usize, height: usize) -> (r: RectSize)
        ensures
            r == (RectSize { width, height }),
    {
        RectSize { width, height }
    }

    pub fn new_width(width: usize) -> (r: RectSize)
        ensures
            r == (RectSize { width, height: 0 }),
    {
        RectSize { width, height: 0 }
    }

    pub fn new_height(height: usize) -> (r: RectSize)
        ensures
            r == (RectSize { width: 0, height }),
    {
        RectSize { width: 0, height }
    }

    /// Takes the spacing off the size, stopping at zero.
    pub fn shrink_by(&mut self, spacing: &Spacing)
        ensures
            final(self).width == sat_sub(old(self).width as int, spacing.left + spacing.right),
            final(self).height == sat_sub(old(self).height as int, spacing.top + spacing.bottom),
    {
        let horizontal = spacing.left() as usize + spacing.right() as usize;
        let vertical = spacing.top() as usize + spacing.bottom() as usize;
        self.width = if self.width >= horizontal {
            self.width - horizontal
        } else {
            0
        };
        self.height = if self.height >= vertical {
            self.height - vertical
        } else {
            0
        };
    }

    pub fn area(&self) -> (r: usize)
        requires
            self.width * self.height <= usize::MAX,
        ensures
            r == self.width * self.height,
    {
        self.width * self.height
    }

    /// Both sizes added.
    pub fn plus(self, rhs: RectSize) -> (r: RectSize)
        requires
            self.width + rhs.width <= usize::MAX,
            self.height + rhs.height <= usize::MAX,
        ensures
            r.width == self.width + rhs.width,
            r.height == self.height + rhs.height,
    {
        RectSize { width: self.width + rhs.width, height: self.height + rhs.height }
    }
}

/// A position relative to an origin, in pixels.
#[derive(Debug, Clone, Copy, PartialEq, Eq, Structural)]
pub struct Offset {
    pub x: usize,
    pub y: usize,
}

impl Offset {
    pub fn new(x: usize, y: usize) -> (r: Offset)
        ensures
            r == (Offset { x, y }),
    {
        Offset { x, y }
    }

    pub fn new_x(x: usize) -> (r: Offset)
        ensures
            r == (Offset { x, y: 0 }),
    {
        Offset { x, y: 0 }
    }

    pub fn new_y(y: usize) -> (r: Offset)
        ensures
            r == (Offset { x: 0, y }),
    {
        Offset { x: 0, y }
    }

    pub fn no_offset() -> (r: Offset)
        ensures
            r == (Offset { x: 0, y: 0 }),
    {
        Offset { x: 0, y: 0 }
    }

    /// Both coordinates added.
    pub fn plus(self, rhs: Offset) -> (r: Offset)
        requires
            self.x + rhs.x <= usize::MAX,
            self.y + rhs.y <= usize::MAX,
        ensures
            r.x == self.x + rhs.x,
            r.y == self.y + rhs.y,
    {
        Offset { x: self.x + rhs.x, y: self.y + rhs.y }
    }

    /// The offset of what a spacing surrounds: its left and top amounts.
    pub fn from_spacing(spacing: &Spacing) -> (r: Offset)
        ensures
            r.x == spacing.left,
            r.y == spacing.top,
    {
        Offset { x: spacing.left() as usize, y: spacing.top() as usize }
    }
}

/// Where the content goes along an axis.
#[derive(Debug, Clone, Copy, PartialEq, Eq, Structural)]
pub enum Position {
    Start,
    Center,
    End,
    SpaceBetween,
}

impl Default for Position {
    fn default() -> (r: Position)
        ensures
            r == Position::Center,
    {
        Position::Center
    }
}

/// Where an element of `element_width` starts in a space of `width`: at its start (also when
/// the elements are spread), with equal halves around it, or at its end.
pub open spec fn initial_pos(position: Position, width: usize, element_width: usize) -> int {
    match position {
        Position::Start | Position::SpaceBetween => 0,
        Position::Center => width / 2 - element_width / 2,
        Position::End => width - element_width,
    }
}

/// Whether an element fits where `position` puts it.
pub open spec fn fits(position: Position, width: usize, element_width: usize) -> bool {
    match position {
        Position::Center => element_width / 2 <= width / 2,
        Position::End => element_width <= width,
        _ => true,
    }
}

impl Position {
    pub fn compute_initial_pos(&self, width: usize, element_width: usize) -> (r: usize)
        requires
            fits(*self, width, element_width),
        ensures
            r == initial_pos(*self, width, element_width),
    {
        match self {
            Position::Start | Position::SpaceBetween => 0,
            Position::Center => width / 2 - element_width / 2,
            Position::End => width - element_width,
        }
    }
}

/// How the content is placed along each axis.
#[derive(Debug, Clone, Copy, PartialEq, Eq, Structural)]
pub struct Alignment {
    pub horizontal: Position,
    pub vertical: Position,
}

impl Alignment {
    pub fn new(horizontal: Position, vertical: Position) -> (r: Alignment)
        ensures
            r == (Alignment { horizontal, vertical }),
    {
        Alignment { horizontal, vertical }
    }
}

/// The direction in which a container lays out its elements.
#[derive(Debug, Clone, Copy, PartialEq, Eq, Structural)]
pub enum Direction {
    Horizontal,
    Vertical,
}

impl Direction {
    pub fn orthogonalize(&self) -> (r: Direction)
        ensures
            r == (match *self {
                Direction::Horizontal => Direction::Vertical,
                Direction::Vertical => Direction::Horizontal,
            }),
    {
        match self {
            Direction::Horizontal => Direction::Vertical,
            Direction::Vertical => Direction::Horizontal,
        }
    }
}

/// A pair seen along a direction: as it is for a horizontal one, swapped for a vertical one.
pub open spec fn along(direction: Direction, a: usize, b: usize) -> (usize, usize) {
    match direction {
        Direction::Horizontal => (a, b),
        Direction::Vertical => (b, a),
    }
}

/// A container's space seen along its direction: lengths and offsets on the main axis
/// (the direction) and on the auxiliary one.
#[derive(Debug, Clone, Copy, PartialEq, Eq, Structural)]
pub struct ContainerPlane {
    pub main_len: usize,
    pub auxiliary_len: usize,
    pub main_axis_offset: usize,
    pub auxiliary_axis_offset: usize,
    pub direction: Direction,
}

impl ContainerPlane {
    /// The plane of a size, without offset.
    pub fn new(rect_size: RectSize, direction: Direction) -> (r: ContainerPlane)
        ensures
            (r.main_len, r.auxiliary_len) == along(direction, rect_size.width, rect_size.height),
            r.main_axis_offset == 0,
            r.auxiliary_axis_offset == 0,
            r.direction == direction,
    {
        let (main_len, auxiliary_len) = match direction {
            Direction::Horizontal => (rect_size.width, rect_size.height),
            Direction::Vertical => (rect_size.height, rect_size.width),
        };
        ContainerPlane { main_len, auxiliary_len, main_axis_offset: 0, auxiliary_axis_offset: 0, direction }
    }

    /// The plane of an offset, without size.
    pub fn new_only_offset(offset: Offset, direction: Direction) -> (r: ContainerPlane)
        ensures
            r.main_len == 0,
            r.auxiliary_len == 0,
            (r.main_axis_offset, r.auxiliary_axis_offset) == along(direction, offset.x, offset.y),
            r.direction == direction,
    {
        let (main_axis_offset, auxiliary_axis_offset) = match direction {
            Direction::Horizontal => (offset.x, offset.y),
            Direction::Vertical => (offset.y, offset.x),
        };
        ContainerPlane { main_len: 0, auxiliary_len: 0, main_axis_offset, auxiliary_axis_offset, direction }
    }

    /// Moves the plane to an offset.
    pub fn relocate(&mut self, offset: &Offset)
        ensures
            (final(self).main_axis_offset, final(self).auxiliary_axis_offset) == along(
                old(self).direction,
                offset.x,
                offset.y,
            ),
            final(self).main_len == old(self).main_len,
            final(self).auxiliary_len == old(self).auxiliary_len,
            final(self).direction == old(self).direction,
    {
        let (main, auxiliary) = match self.direction {
            Direction::Horizontal => (offset.x, offset.y),
            Direction::Vertical => (offset.y, offset.x),
        };
        self.main_axis_offset = main;
        self.auxiliary_axis_offset = auxiliary;
    }

    /// Takes a spacing off the lengths (see [`RectSize::shrink_by`]).
    pub fn shrink_rect_size_by(&mut self, spacing: &Spacing)
        ensures
            (final(self).main_len, final(self).auxiliary_len) == along(
                old(self).direction,
                sat_sub(
                    along(old(self).direction, old(self).main_len, old(self).auxiliary_len).0 as int,
                    spacing.left + spacing.right,
                ) as usize,
                sat_sub(
                    along(old(self).direction, old(self).main_len, old(self).auxiliary_len).1 as int,
                    spacing.top + spacing.bottom,
                ) as usize,
            ),
            final(self).main_axis_offset == old(self).main_axis_offset,
            final(self).auxiliary_axis_offset == old(self).auxiliary_axis_offset,
            final(self).direction == old(self).direction,
    {
        let mut size = self.as_rect_size();
        size.shrink_by(spacing);
        let (main, auxiliary) = match self.direction {
            Direction::Horizontal => (size.width, size.height),
            Direction::Vertical => (size.height, size.width),
        };
        self.main_len = main;
        self.auxiliary_len = auxiliary;
    }

    /// The size of the plane.
    pub fn as_rect_size(&self) -> (r: RectSize)
        ensures
            (r.width, r.height) == along(self.direction, self.main_len, self.auxiliary_len),
    {
        match self.direction {
            Direction::Horizontal => RectSize { width: self.main_len, height: self.auxiliary_len },
            Direction::Vertical => RectSize { width: self.auxiliary_len, height: self.main_len },
        }
    }

    /// The offset of the plane.
    pub fn as_offset(&self) -> (r: Offset)
        ensures
            (r.x, r.y) == along(self.direction, self.main_axis_offset, self.auxiliary_axis_offset),
    {
        match self.direction {
            Direction::Horizontal => Offset { x: self.main_axis_offset, y: self.auxiliary_axis_offset },
            Direction::Vertical => Offset { x: self.auxiliary_axis_offset, y: self.main_axis_offset },
        }
    }
}

// ---------------------------------------------------------------------------
// Fitting an image
// ---------------------------------------------------------------------------

/// Two margins of one axis reduced so that `diff` less is taken: the smaller one can give
/// at most what it has, the larger one gives the rest too; each stops at zero.
pub open spec fn reduced_pair(first: u8, second: u8, diff: u8) -> (u8, u8) {
    let (small, large) = if first > second {
        (second, first)
    } else {
        (first, second)
    };
    let large = if diff > small {
        (large - (diff - small)) as u8
    } else {
        large
    };
    let small2 = sat_sub(small as int, diff as int) as u8;
    let large2 = sat_sub(large as int, diff as int) as u8;
    if first > second {
        (large2, small2)
    } else {
        (small2, large2)
    }
}

/// Whether the margins of one axis can be reduced by `diff` without going below zero.
pub open spec fn reducible(first: u8, second: u8, diff: u8) -> bool {
    let (small, large) = if first > second {
        (second, first)
    } else {
        (first, second)
    };
    diff > small ==> diff - small <= large
}

fn reduce_spacing(first: u8, second: u8, diff: u8) -> (r: (u8, u8))
    requires
        reducible(first, second, diff),
    ensures
        r == reduced_pair(first, second, diff),
{
    let swapped = first > second;
    let (small, mut large) = if swapped {
        (second, first)
    } else {
        (first, second)
    };
    if diff > small {
        large = large - (diff - small);
    }
    let small2 = if small >= diff {
        small - diff
    } else {
        0
    };
    let large2 = if large >= diff {
        large - diff
    } else {
        0
    };
    if swapped {
        (large2, small2)
    } else {
        (small2, large2)
    }
}

/// What an image is fitted to: its margins reduced on an axis where image and margins do
/// not fit in, by half the excess on each side.
pub open spec fn fitted_margin(image: RectSize, rect: RectSize, margin: Spacing) -> Spacing {
    let horizontal = margin.left + margin.right;
    let m1 = if image.width + horizontal > rect.width {
        let diff = ((image.width + horizontal - rect.width) as u8 / 2) as u8;
        let (l, r) = reduced_pair(margin.left, margin.right, diff);
        Spacing { left: l, right: r, ..margin }
    } else {
        margin
    };
    let vertical = m1.top + m1.bottom;
    if image.height + vertical > rect.height {
        let diff = ((image.height + vertical - rect.height) as u8 / 2) as u8;
        let (t, b) = reduced_pair(m1.top, m1.bottom, diff);
        Spacing { top: t, bottom: b, ..m1 }
    } else {
        m1
    }
}

/// Whether the margins of an image can be reduced as [`fitted_margin`] does.
pub open spec fn image_fits_reducibly(image: RectSize, rect: RectSize, margin: Spacing) -> bool {
    let horizontal = margin.left + margin.right;
    let h_ok = image.width + horizontal > rect.width ==> reducible(
        margin.left,
        margin.right,
        ((image.width + horizontal - rect.width) as u8 / 2) as u8,
    );
    let m1 = if image.width + horizontal > rect.width {
        let diff = ((image.width + horizontal - rect.width) as u8 / 2) as u8;
        let (l, r) = reduced_pair(margin.left, margin.right, diff);
        Spacing { left: l, right: r, ..margin }
    } else {
        margin
    };
    let vertical = m1.top + m1.bottom;
    let v_ok = image.height + vertical > rect.height ==> reducible(
        m1.top,
        m1.bottom,
        ((image.height + vertical - rect.height) as u8 / 2) as u8,
    );
    h_ok && v_ok
}

/// An image fitted into its space: nothing where there is no image or it is larger than the
/// space; else the margins fitted (see [`fitted_margin`]) and the size of the image with them.
pub fn compile_image(image: Option<RectSize>, rect: RectSize, margin: Spacing) -> (r: Option<(RectSize, Spacing)>)
    requires
        image matches Some(i) ==> i.width <= rect.width && i.height <= rect.height
            ==> image_fits_reducibly(i, rect, margin),
        image matches Some(i) ==> i.width + 510 <= usize::MAX && i.height + 510 <= usize::MAX,
    ensures
        match image {
            None => r is None,
            Some(i) => if i.width > rect.width || i.height > rect.height {
                r is None
            } else {
                r matches Some(p) && p.1 == fitted_margin(i, rect, margin) && p.0.width == i.width
                    + p.1.left + p.1.right && p.0.height == i.height + p.1.top + p.1.bottom
            },
        },
{
    let image = match image {
        None => {
            return None;
        },
        Some(i) => i,
    };
    if image.width > rect.width || image.height > rect.height {
        return None;
    }
    let mut margin = margin;
    let horizontal = margin.left() as usize + margin.right() as usize;
    if image.width + horizontal > rect.width {
        let diff = ((image.width + horizontal - rect.width) as u8) / 2;
        let (left, right) = reduce_spacing(margin.left(), margin.right(), diff);
        margin.set_left(left);
        margin.set_right(right);
    }
    let vertical = margin.top() as usize + margin.bottom() as usize;
    if image.height + vertical > rect.height {
        let diff = ((image.height + vertical - rect.height) as u8) / 2;
        let (top, bottom) = reduce_spacing(margin.top(), margin.bottom(), diff);
        margin.set_top(top);
        margin.set_bottom(bottom);
    }
    let size = RectSize {
        width: image.width + margin.left() as usize + margin.right() as usize,
        height: image.height + margin.top() as usize + margin.bottom() as usize,
    };
    Some((size, margin))
}

} // verus!
