//! Spacing around an element: one amount for each side.
use vstd::prelude::*;

verus! {

/// Spacing around an element, in pixels, one amount per side.
#[derive(Debug, Clone, Copy, PartialEq, Eq, Structural)]
pub struct Spacing {
    pub top: u8,
    pub right: u8,
    pub bottom: u8,
    pub left: u8,
}

impl Default for Spacing {
    fn default() -> (r: Spacing)
        ensures
            r == Spacing::zero(),
    {
        Spacing { top: 0, right: 0, bottom: 0, left: 0 }
    }
}

impl Spacing {
    pub open spec fn zero() -> Spacing {
        Spacing { top: 0, right: 0, bottom: 0, left: 0 }
    }

    pub fn top(&self) -> (r: u8)
        ensures
            r == self.top,
    {
        self.top
    }

    pub fn right(&self) -> (r: u8)
        ensures
            r == self.right,
    {
        self.right
    }

    pub fn bottom(&self) -> (r: u8)
        ensures
            r == self.bottom,
    {
        self.bottom
    }

    pub fn left(&self) -> (r: u8)
        ensures
            r == self.left,
    {
        self.left
    }

    pub fn set_top(&mut self, top: u8)
        ensures
            *final(self) == (Spacing { top, ..*old(self) }),
    {
        self.top = top;
    }

    pub fn set_right(&mut self, right: u8)
        ensures
            *final(self) == (Spacing { right, ..*old(self) }),
    {
        self.right = right;
    }

    pub fn set_bottom(&mut self, bottom: u8)
        ensures
            *final(self) == (Spacing { bottom, ..*old(self) }),
    {
        self.bottom = bottom;
    }

    pub fn set_left(&mut self, left: u8)
        ensures
            *final(self) == (Spacing { left, ..*old(self) }),
    {
        self.left = left;
    }

    /// Takes the horizontal spacing off `width` and the vertical spacing off `height`,
    /// stopping at zero.
    pub fn shrink(&self, width: &mut usize, height: &mut usize)
        ensures
            *final(width) == sat_sub(*old(width) as int, self.left + self.right),
            *final(height) == sat_sub(*old(height) as int, self.top + self.bottom),
    {
        let horizontal = self.left as usize + self.right as usize;
        let vertical = self.top as usize + self.bottom as usize;
        *width = if *width >= horizontal {
            *width - horizontal
        } else {
            0
        };
        *height = if *height >= vertical {
            *height - vertical
        } else {
            0
        };
    }
}

/// `a - b`, or zero when `b` is larger.
pub open spec fn sat_sub(a: int, b: int) -> int {
    if a >= b {
        a - b
    } else {
        0
    }
}

} // verus!
