//! A list of paragraphs with a mark beside each item: done items before the
//! current one, and the current one.
use vstd::prelude::*;

use crate::geometry::{clamp_i16, Point, Rect};
use crate::layout::TextLayout;
use crate::arrange::arranged;
use crate::page::{capped, Paragraphs};
use crate::pagination::fill;
use crate::paragraph::ParagraphSource;

verus! {

/// Room kept on the left for the marks.
pub const CHECK_WIDTH: i16 = 16;

/// Position of the done mark relative to the item's top-left corner.
pub const DONE_OFFSET_X: i16 = -2;

pub const DONE_OFFSET_Y: i16 = 6;

/// Position of the current mark relative to the item's top-left corner.
pub const CURRENT_OFFSET_X: i16 = 2;

pub const CURRENT_OFFSET_Y: i16 = 3;

/// A mark to draw: its image, where its top-left corner goes, and its
/// colors (those of the item's text).
#[derive(Clone, Copy)]
pub struct IconMark {
    pub icon: &'static [u8],
    pub top_left: Point,
    pub fg: u16,
    pub bg: u16,
}

pub struct Checklist<T> {
    pub area: Rect,
    pub paragraphs: Paragraphs<T>,
    /// Index of the current item among the source's paragraphs.
    pub current: usize,
    pub icon_current: &'static [u8],
    pub icon_done: &'static [u8],
}

/// The mark `icon` beside `layout`, offset by `(dx, dy)` from the left edge
/// `x0` and the top of the layout.
pub open spec fn mark_at(icon: &'static [u8], x0: i16, layout: TextLayout, dx: i16, dy: i16) -> IconMark {
    IconMark {
        icon,
        top_left: Point {
            x: clamp_i16(x0 + dx) as i16,
            y: clamp_i16(layout.bounds.y0 + dy) as i16,
        },
        fg: layout.style.text_color,
        bg: layout.style.background_color,
    }
}

fn mark(icon: &'static [u8], x0: i16, layout: &TextLayout, dx: i16, dy: i16) -> (r: IconMark)
    ensures
        r == mark_at(icon, x0, *layout, dx, dy),
{
    let x: i32 = x0 as i32 + dx as i32;
    let y: i32 = layout.bounds.y0 as i32 + dy as i32;
    let x: i16 = if x > i16::MAX as i32 {
        i16::MAX
    } else if x < i16::MIN as i32 {
        i16::MIN
    } else {
        x as i16
    };
    let y: i16 = if y > i16::MAX as i32 {
        i16::MAX
    } else if y < i16::MIN as i32 {
        i16::MIN
    } else {
        y as i16
    };
    IconMark {
        icon,
        top_left: Point { x, y },
        fg: layout.style.text_color,
        bg: layout.style.background_color,
    }
}

impl<T: ParagraphSource> Checklist<T> {
    /// How many visible items come before the current one.
    pub open spec fn current_visible(&self) -> int {
        if self.current >= self.paragraphs.offset.par {
            self.current - self.paragraphs.offset.par
        } else {
            0
        }
    }

    /// The marks of the visible items: a done mark on each item before the
    /// current one, then a current mark on the current item if it is
    /// visible.
    pub open spec fn spec_marks(&self) -> Seq<IconMark> {
        let vis = self.paragraphs.spec_visible();
        let cv = self.current_visible();
        let done = if cv <= vis.len() {
            cv
        } else {
            vis.len() as int
        };
        Seq::new(
            done as nat,
            |j: int| mark_at(self.icon_done, self.area.x0, vis[j], DONE_OFFSET_X, DONE_OFFSET_Y),
        ) + if cv < vis.len() {
            seq![
                mark_at(self.icon_current, self.area.x0, vis[cv], CURRENT_OFFSET_X, CURRENT_OFFSET_Y),
            ]
        } else {
            Seq::empty()
        }
    }

    pub fn from_paragraphs(
        icon_current: &'static [u8],
        icon_done: &'static [u8],
        current: usize,
        paragraphs: Paragraphs<T>,
    ) -> (r: Self)
        ensures
            r.area == Rect::spec_zero(),
            r.paragraphs == paragraphs,
            r.current == current,
            r.icon_current == icon_current,
            r.icon_done == icon_done,
    {
        Checklist { area: Rect::zero(), paragraphs, current, icon_current, icon_done }
    }

    /// Takes `bounds` as the area and places the paragraphs in it, less the
    /// room for the marks on the left.
    pub fn place(&mut self, bounds: Rect) -> (r: Rect)
        ensures
            r == bounds,
            final(self).area == bounds,
            final(self).paragraphs.area == bounds.inset_left_spec(CHECK_WIDTH),
            final(self).paragraphs.offset == old(self).paragraphs.offset,
            final(self).paragraphs.spec_visible() == arranged(
                old(self).paragraphs.placement,
                bounds.inset_left_spec(CHECK_WIDTH),
                capped(
                    fill(
                        &old(self).paragraphs.source,
                        old(self).paragraphs.offset,
                        bounds.inset_left_spec(CHECK_WIDTH),
                        bounds.inset_left_spec(CHECK_WIDTH).spec_height(),
                    ),
                ),
            ),
            final(self).paragraphs.placement == old(self).paragraphs.placement,
            final(self).paragraphs.source == old(self).paragraphs.source,
            final(self).current == old(self).current,
            final(self).icon_current == old(self).icon_current,
            final(self).icon_done == old(self).icon_done,
    {
        self.area = bounds;
        let para_area = bounds.inset_left(CHECK_WIDTH);
        self.paragraphs.place(para_area);
        self.area
    }

    /// The marks to draw over the current page; see `spec_marks`.
    pub fn marks(&self) -> (r: Vec<IconMark>)
        ensures
            r@ == self.spec_marks(),
    {
        let layouts = self.paragraphs.visible_layouts();
        let n: usize = layouts.len();
        let cv: usize = if self.current >= self.paragraphs.offset.par {
            self.current - self.paragraphs.offset.par
        } else {
            0
        };
        let done: usize = if cv <= n {
            cv
        } else {
            n
        };
        let mut out: Vec<IconMark> = Vec::new();
        let mut i: usize = 0;
        while i < done
            invariant
                layouts@ == self.paragraphs.spec_visible(),
                n == layouts@.len(),
                done <= n,
                i <= done,
                out@.len() == i,
                forall|j: int|
                    0 <= j < i ==> (#[trigger] out@[j]) == mark_at(
                        self.icon_done,
                        self.area.x0,
                        layouts@[j],
                        DONE_OFFSET_X,
                        DONE_OFFSET_Y,
                    ),
            decreases done - i,
        {
            out.push(mark(self.icon_done, self.area.x0, &layouts[i], DONE_OFFSET_X, DONE_OFFSET_Y));
            i = i + 1;
        }
        if cv < n {
            out.push(
                mark(self.icon_current, self.area.x0, &layouts[cv], CURRENT_OFFSET_X, CURRENT_OFFSET_Y),
            );
        }
        assert(out@ =~= self.spec_marks());
        out
    }

    /// The checklist's area followed by the paragraphs' bounds.
    pub fn bounds(&self) -> (r: Vec<Rect>)
        ensures
            r@.len() == self.paragraphs.spec_visible().len() + 2,
            r@[0] == self.area,
            r@[1] == self.paragraphs.area,
            forall|j: int|
                0 <= j < self.paragraphs.spec_visible().len() ==> r@[j + 2] == (
                #[trigger] self.paragraphs.spec_visible()[j]).bounds,
    {
        let inner = self.paragraphs.bounds();
        let mut out: Vec<Rect> = Vec::new();
        out.push(self.area);
        let mut i: usize = 0;
        while i < inner.len()
            invariant
                inner@.len() == self.paragraphs.spec_visible().len() + 1,
                inner@[0] == self.paragraphs.area,
                forall|j: int|
                    0 <= j < self.paragraphs.spec_visible().len() ==> inner@[j + 1] == (
                    #[trigger] self.paragraphs.spec_visible()[j]).bounds,
                i <= inner@.len(),
                out@.len() == i + 1,
                out@[0] == self.area,
                forall|j: int| 0 <= j < i ==> out@[j + 1] == #[trigger] inner@[j],
            decreases inner@.len() - i,
        {
            out.push(inner[i]);
            i = i + 1;
        }
        out
    }
}

} // verus!
