//! Fixed-pitch text measurement: how much of a text fits a rectangle.
//!
//! Every character takes one cell of `char_width` columns; a line holds as
//! many cells as the area is wide (at least one), and each line is
//! `line_height` rows high.
use vstd::prelude::*;

use crate::geometry::{Alignment, Rect};

verus! {

/// Visual style of a paragraph: font metrics and colors.
#[derive(Clone, Copy, Debug, PartialEq, Eq, Structural)]
pub struct TextStyle {
    pub line_height: i16,
    pub char_width: i16,
    pub text_color: u16,
    pub background_color: u16,
}

impl TextStyle {
    /// Line height in use: a non-positive one counts as 1.
    pub open spec fn spec_line_height(self) -> int {
        if self.line_height > 0 {
            self.line_height as int
        } else {
            1
        }
    }

    /// Character width in use: a non-positive one counts as 1.
    pub open spec fn spec_char_width(self) -> int {
        if self.char_width > 0 {
            self.char_width as int
        } else {
            1
        }
    }

    /// Characters on one line of an area `width` wide (at least one).
    pub open spec fn chars_per_line(self, width: int) -> int {
        if width > 0 && width / self.spec_char_width() > 0 {
            width / self.spec_char_width()
        } else {
            1
        }
    }

    /// Whole lines that fit in `height` rows.
    pub open spec fn lines_available(self, height: int) -> int {
        if height > 0 {
            height / self.spec_line_height()
        } else {
            0
        }
    }

    /// Lines that `n` characters take in an area `width` wide.
    pub open spec fn lines_needed(self, width: int, n: int) -> int {
        let cpl = self.chars_per_line(width);
        n / cpl + if n % cpl == 0 {
            0int
        } else {
            1int
        }
    }

    pub fn line_height(&self) -> (r: i16)
        ensures
            r as int == self.spec_line_height(),
            r > 0,
    {
        if self.line_height > 0 {
            self.line_height
        } else {
            1
        }
    }
}

/// Outcome of measuring a text in an area.
#[derive(Clone, Copy, Debug, PartialEq, Eq, Structural)]
pub enum LayoutFit {
    /// The whole text fits, taking `height` rows.
    Fitting { height: i16 },
    /// Only the first `processed_chars` characters fit, taking `height` rows.
    OutOfBounds { height: i16, processed_chars: usize },
}

impl LayoutFit {
    pub open spec fn spec_height(self) -> i16 {
        match self {
            LayoutFit::Fitting { height } => height,
            LayoutFit::OutOfBounds { height, .. } => height,
        }
    }

    pub fn height(&self) -> (r: i16)
        ensures
            r == self.spec_height(),
    {
        match self {
            LayoutFit::Fitting { height } => *height,
            LayoutFit::OutOfBounds { height, .. } => *height,
        }
    }
}

/// How `n` characters of `style` fit in an area `width` wide and `height` high.
pub open spec fn fit_spec(style: TextStyle, width: int, height: int, n: int) -> LayoutFit {
    let need = style.lines_needed(width, n);
    let avail = style.lines_available(height);
    if need <= avail {
        LayoutFit::Fitting { height: (need * style.spec_line_height()) as i16 }
    } else {
        LayoutFit::OutOfBounds {
            height: (avail * style.spec_line_height()) as i16,
            processed_chars: (avail * style.chars_per_line(width)) as usize,
        }
    }
}

/// The numbers of `fit_spec` are exact: what fits is within the area, a
/// text that fits takes a line more than nothing, and a text that does not
/// fit is cut before its end, after at least one line when a line fits.
pub proof fn lemma_fit_bounds(style: TextStyle, width: int, height: int, n: int)
    requires
        0 <= n,
        height <= i16::MAX,
        width <= i16::MAX,
    ensures
        match fit_spec(style, width, height, n) {
            LayoutFit::Fitting { height: h } => {
                &&& h as int == style.lines_needed(width, n) * style.spec_line_height()
                &&& 0 <= h <= height || (n == 0 && h == 0)
                &&& (n > 0 <==> h > 0)
            },
            LayoutFit::OutOfBounds { height: h, processed_chars: p } => {
                &&& h as int == style.lines_available(height) * style.spec_line_height()
                &&& p as int == style.lines_available(height) * style.chars_per_line(width)
                &&& 0 <= h <= height || h == 0
                &&& 0 <= p < n
                &&& (height >= style.spec_line_height() ==> p > 0)
            },
        },
{
    let lh = style.spec_line_height();
    let cw = style.spec_char_width();
    let cpl = style.chars_per_line(width);
    let need = style.lines_needed(width, n);
    let avail = style.lines_available(height);
    assert(cpl >= 1);
    assert(0 <= avail <= i16::MAX && avail * lh <= if height > 0 { height } else { 0 }) by (nonlinear_arith)
        requires
            lh >= 1,
            height <= i16::MAX,
            avail == if height > 0 { height / lh } else { 0 },
    ;
    assert(need >= 0 && (n > 0 ==> need > 0) && (n == 0 ==> need == 0)) by (nonlinear_arith)
        requires
            cpl >= 1,
            n >= 0,
            need == n / cpl + if n % cpl == 0 { 0int } else { 1int },
    ;
    assert(cpl <= i16::MAX) by (nonlinear_arith)
        requires
            cw >= 1,
            cpl == if width > 0 && width / cw > 0 { width / cw } else { 1 },
            width <= i16::MAX,
    ;
    if need <= avail {
        assert(0 <= need * lh <= avail * lh) by (nonlinear_arith)
            requires
                0 <= need <= avail,
                lh >= 1,
        ;
        assert((n > 0 ==> need * lh > 0) && (n == 0 ==> need * lh == 0)) by (nonlinear_arith)
            requires
                n > 0 ==> need > 0,
                n == 0 ==> need == 0,
                lh >= 1,
        ;
        assert(((need * lh) as i16) as int == need * lh);
        assert(fit_spec(style, width, height, n) == LayoutFit::Fitting {
            height: (need * lh) as i16,
        });
    } else {
        assert(avail * cpl < n) by (nonlinear_arith)
            requires
                cpl >= 1,
                n >= 0,
                0 <= avail < need,
                need == n / cpl + if n % cpl == 0 { 0int } else { 1int },
        ;
        assert(0 <= avail * cpl) by (nonlinear_arith)
            requires
                cpl >= 1,
                avail >= 0,
        ;
        assert(height >= lh ==> avail >= 1) by (nonlinear_arith)
            requires
                lh >= 1,
                avail == if height > 0 { height / lh } else { 0 },
        ;
        assert(avail >= 1 ==> avail * cpl > 0) by (nonlinear_arith)
            requires
                cpl >= 1,
        ;
        assert(((avail * lh) as i16) as int == avail * lh);
        assert(avail * cpl <= i16::MAX * i16::MAX) by (nonlinear_arith)
            requires
                0 <= avail <= i16::MAX,
                1 <= cpl <= i16::MAX,
        ;
        assert(((avail * cpl) as usize) as int == avail * cpl);
        assert(fit_spec(style, width, height, n) == LayoutFit::OutOfBounds {
            height: (avail * lh) as i16,
            processed_chars: (avail * cpl) as usize,
        });
    }
}

/// A paragraph's style and alignment together with the area it occupies.
#[derive(Clone, Copy, Debug, PartialEq, Eq, Structural)]
pub struct TextLayout {
    pub bounds: Rect,
    pub style: TextStyle,
    pub align: Alignment,
}

impl TextLayout {
    /// How `n` characters fit in the bounds of this layout.
    pub open spec fn spec_fit(self, n: int) -> LayoutFit {
        fit_spec(self.style, self.bounds.spec_width(), self.bounds.spec_height(), n)
    }

    pub fn new(style: TextStyle) -> (r: TextLayout)
        ensures
            r == (TextLayout {
                bounds: Rect { x0: 0, y0: 0, x1: 0, y1: 0 },
                style,
                align: Alignment::Start,
            }),
    {
        TextLayout { bounds: Rect::zero(), style, align: Alignment::Start }
    }

    pub fn with_align(self, align: Alignment) -> (r: TextLayout)
        ensures
            r == (TextLayout { align, ..self }),
    {
        TextLayout { align, ..self }
    }

    pub fn with_bounds(self, bounds: Rect) -> (r: TextLayout)
        ensures
            r == (TextLayout { bounds, ..self }),
    {
        TextLayout { bounds, ..self }
    }

    /// Measures how much of `text` fits in the bounds of this layout.
    pub fn fit_text(&self, text: &str) -> (r: LayoutFit)
        ensures
            r == self.spec_fit(text@.len() as int),
    {
        let n: usize = text.unicode_len();
        proof {
            lemma_fit_bounds(
                self.style,
                self.bounds.spec_width(),
                self.bounds.spec_height(),
                n as int,
            );
        }
        let lh: i16 = self.style.line_height();
        let cw: i16 = if self.style.char_width > 0 {
            self.style.char_width
        } else {
            1
        };
        let w: i16 = self.bounds.width();
        let h: i16 = self.bounds.height();
        let mut cpl: usize = 1;
        if w > 0 && w / cw > 0 {
            cpl = (w / cw) as usize;
        }
        let avail: usize = if h > 0 {
            (h / lh) as usize
        } else {
            0
        };
        if n % cpl != 0 {
            assert(n / cpl < n) by (nonlinear_arith)
                requires
                    cpl >= 1,
                    n % cpl != 0,
            ;
        }
        let need: usize = n / cpl + if n % cpl == 0 {
            0
        } else {
            1
        };
        if need <= avail {
            assert(need * lh <= i16::MAX) by (nonlinear_arith)
                requires
                    need <= avail,
                    avail == if h > 0 { h / lh } else { 0 },
                    lh >= 1,
            ;
            LayoutFit::Fitting { height: (need * lh as usize) as i16 }
        } else {
            assert(avail * cpl <= usize::MAX) by (nonlinear_arith)
                requires
                    avail * cpl < n,
                    n <= usize::MAX,
            ;
            LayoutFit::OutOfBounds {
                height: (avail * lh as usize) as i16,
                processed_chars: avail * cpl,
            }
        }
    }
}

/// A text whose lines all fit in `height` is measured as fitting, at the
/// height of those lines.
pub proof fn lemma_fits_whole(style: TextStyle, width: int, height: int, n: int)
    requires
        0 <= n,
        height <= i16::MAX,
        width <= i16::MAX,
        style.lines_needed(width, n) * style.spec_line_height() <= height,
    ensures
        fit_spec(style, width, height, n) == (LayoutFit::Fitting {
            height: (style.lines_needed(width, n) * style.spec_line_height()) as i16,
        }),
        0 <= style.lines_needed(width, n) * style.spec_line_height(),
{
    let lh = style.spec_line_height();
    let need = style.lines_needed(width, n);
    let cpl = style.chars_per_line(width);
    assert(need >= 0) by (nonlinear_arith)
        requires
            cpl >= 1,
            n >= 0,
            need == n / cpl + if n % cpl == 0 { 0int } else { 1int },
    ;
    assert(0 <= need * lh) by (nonlinear_arith)
        requires
            need >= 0,
            lh >= 1,
    ;
    assert(need <= style.lines_available(height)) by (nonlinear_arith)
        requires
            need >= 0,
            lh >= 1,
            need * lh <= height,
            style.lines_available(height) == if height > 0 { height / lh } else { 0 },
    ;
}

/// The lines of a text take no negative room.
pub proof fn lemma_lines_nonneg(style: TextStyle, width: int, n: int)
    requires
        0 <= n,
    ensures
        0 <= style.lines_needed(width, n) * style.spec_line_height(),
{
    let lh = style.spec_line_height();
    let need = style.lines_needed(width, n);
    let cpl = style.chars_per_line(width);
    assert(0 <= need * lh) by (nonlinear_arith)
        requires
            cpl >= 1,
            n >= 0,
            lh >= 1,
            need == n / cpl + if n % cpl == 0 { 0int } else { 1int },
    ;
}

} // verus!
