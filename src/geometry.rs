//! Integer screen geometry: rectangles and alignment.
use vstd::prelude::*;

verus! {

/// Horizontal or vertical alignment of a block inside a larger one.
#[derive(Clone, Copy, Debug, PartialEq, Eq, Structural)]
pub enum Alignment {
    Start,
    Center,
    End,
}

/// How blocks are stacked in an area: their alignment along the stacking
/// direction and the space left between two of them.
#[derive(Clone, Copy, Debug, PartialEq, Eq, Structural)]
pub struct LinearPlacement {
    pub align: Alignment,
    pub spacing: i16,
}

impl LinearPlacement {
    /// Top to bottom, aligned at the start, no spacing.
    pub fn vertical() -> (r: LinearPlacement)
        ensures
            r == (LinearPlacement { align: Alignment::Start, spacing: 0 }),
    {
        LinearPlacement { align: Alignment::Start, spacing: 0 }
    }

    pub fn align_at_center(self) -> (r: LinearPlacement)
        ensures
            r == (LinearPlacement { align: Alignment::Center, ..self }),
    {
        LinearPlacement { align: Alignment::Center, ..self }
    }

    pub fn align_at_end(self) -> (r: LinearPlacement)
        ensures
            r == (LinearPlacement { align: Alignment::End, ..self }),
    {
        LinearPlacement { align: Alignment::End, ..self }
    }

    pub fn with_spacing(self, spacing: i16) -> (r: LinearPlacement)
        ensures
            r == (LinearPlacement { spacing, ..self }),
    {
        LinearPlacement { spacing, ..self }
    }
}

/// A point on the screen.
#[derive(Clone, Copy, Debug, PartialEq, Eq, Structural)]
pub struct Point {
    pub x: i16,
    pub y: i16,
}

/// Clamp a mathematical integer to the range of `i16`.
pub open spec fn clamp_i16(v: int) -> int {
    if v < i16::MIN {
        i16::MIN as int
    } else if v > i16::MAX {
        i16::MAX as int
    } else {
        v
    }
}

/// A rectangle given by its top-left corner `(x0, y0)` and its bottom-right
/// corner `(x1, y1)`, exclusive.
#[derive(Clone, Copy, Debug, PartialEq, Eq, Structural)]
pub struct Rect {
    pub x0: i16,
    pub y0: i16,
    pub x1: i16,
    pub y1: i16,
}

impl Rect {
    pub open spec fn spec_zero() -> Rect {
        Rect { x0: 0, y0: 0, x1: 0, y1: 0 }
    }

    /// Height of the rectangle, saturated to the range of `i16`.
    pub open spec fn spec_height(self) -> int {
        clamp_i16(self.y1 - self.y0)
    }

    /// Width of the rectangle, saturated to the range of `i16`.
    pub open spec fn spec_width(self) -> int {
        clamp_i16(self.x1 - self.x0)
    }

    /// The upper part of `self` that is `h` high, `h` taken between 0 and the
    /// height of `self`.
    pub open spec fn split_height(self, h: int) -> int {
        if h < 0 {
            0
        } else if self.spec_height() < 0 {
            0
        } else if h > self.spec_height() {
            self.spec_height()
        } else {
            h
        }
    }

    pub fn new(x0: i16, y0: i16, x1: i16, y1: i16) -> (r: Rect)
        ensures
            r == (Rect { x0, y0, x1, y1 }),
    {
        Rect { x0, y0, x1, y1 }
    }

    pub fn zero() -> (r: Rect)
        ensures
            r == (Rect { x0: 0, y0: 0, x1: 0, y1: 0 }),
    {
        Rect { x0: 0, y0: 0, x1: 0, y1: 0 }
    }

    pub fn height(&self) -> (r: i16)
        ensures
            r as int == self.spec_height(),
    {
        let d: i32 = self.y1 as i32 - self.y0 as i32;
        if d > i16::MAX as i32 {
            i16::MAX
        } else if d < i16::MIN as i32 {
            i16::MIN
        } else {
            d as i16
        }
    }

    pub fn width(&self) -> (r: i16)
        ensures
            r as int == self.spec_width(),
    {
        let d: i32 = self.x1 as i32 - self.x0 as i32;
        if d > i16::MAX as i32 {
            i16::MAX
        } else if d < i16::MIN as i32 {
            i16::MIN
        } else {
            d as i16
        }
    }

    /// Splits `self` into the top part of height `h` (kept between 0 and the
    /// height of `self`) and the part below it.
    pub fn split_top(self, h: i16) -> (r: (Rect, Rect))
        ensures
            r.0 == (Rect { y1: (self.y0 + self.split_height(h as int)) as i16, ..self }),
            r.1 == (Rect { y0: (self.y0 + self.split_height(h as int)) as i16, ..self }),
    {
        let full = self.height();
        let mut hh: i16 = h;
        if hh < 0 || full < 0 {
            hh = 0;
        } else if hh > full {
            hh = full;
        }
        let y: i16 = self.y0 + hh;
        (Rect { y1: y, ..self }, Rect { y0: y, ..self })
    }

    pub open spec fn inset_left_spec(self, w: i16) -> Rect {
        Rect { x0: clamp_i16(self.x0 + w) as i16, ..self }
    }

    /// `self` with `w` columns taken off its left side (the left edge
    /// saturates at the largest `i16`).
    pub fn inset_left(self, w: i16) -> (r: Rect)
        requires
            w >= 0,
        ensures
            r == self.inset_left_spec(w),
    {
        let x0: i32 = self.x0 as i32 + w as i32;
        Rect { x0: if x0 > i16::MAX as i32 { i16::MAX } else { x0 as i16 }, ..self }
    }
}

} // verus!
