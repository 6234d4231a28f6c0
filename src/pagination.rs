//! Splitting a source of paragraphs into pages: the step that places one
//! paragraph, the fill of one page, and the sequence of page starts.
use vstd::prelude::*;

use crate::geometry::Rect;
use crate::layout::{fit_spec, lemma_fit_bounds, LayoutFit, TextLayout};
use crate::paragraph::{suffix, Paragraph, ParagraphSource};

verus! {

/// Where pagination resumes: a paragraph index and a character offset in it.
#[derive(Clone, Copy, Debug, PartialEq, Eq, Structural)]
pub struct PageOffset {
    /// Index of paragraph.
    pub par: usize,
    /// Index of character in the paragraph.
    pub chr: usize,
}

/// The start of the first page.
pub open spec fn first_offset() -> PageOffset {
    PageOffset { par: 0, chr: 0 }
}

impl Default for PageOffset {
    fn default() -> (r: PageOffset)
        ensures
            r == first_offset(),
    {
        PageOffset { par: 0, chr: 0 }
    }
}

/// Whether a paragraph pair marked to stay together moves whole to the next
/// page. Never at the top of a page; otherwise when the pair, each measured
/// alone at full height, does not fit the room left and either at most two
/// lines of the key fit there, or the key alone does not fit and the value
/// has text, or the pair fits on a page by itself.
pub open spec fn pair_on_next_page(
    key: Paragraph<Seq<char>>,
    val: Paragraph<Seq<char>>,
    area: Rect,
    full: int,
) -> bool {
    let rem = area.spec_height();
    let w = area.spec_width();
    let kh = fit_spec(*key.style, w, full, key.content.len() as int).spec_height() as int;
    let vh = fit_spec(*val.style, w, full, val.content.len() as int).spec_height() as int;
    let threshold = 2 * key.style.spec_line_height();
    if rem >= full {
        false
    } else if kh + vh > rem {
        rem <= threshold || (vh > 0 && kh > rem) || kh + vh <= full
    } else {
        false
    }
}

/// The text left to place at `off`.
pub open spec fn text_at<S: ParagraphSource>(src: &S, off: PageOffset) -> Seq<char> {
    suffix(src.spec_at(off.par as int).content, off.chr as int)
}

/// Whether the step at `off` moves the pair starting there to the next page.
pub open spec fn defers<S: ParagraphSource>(src: &S, off: PageOffset, area: Rect, full: int) -> bool {
    &&& src.spec_at(off.par as int).no_break
    &&& off.chr == 0
    &&& off.par + 1 < src.spec_size()
    &&& pair_on_next_page(
        src.spec_at(off.par as int),
        src.spec_at(off.par + 1),
        area,
        full,
    )
}

/// How the text at `off` fits in `area`.
pub open spec fn fit_at<S: ParagraphSource>(src: &S, off: PageOffset, area: Rect) -> LayoutFit {
    src.spec_at(off.par as int).spec_layout(area).spec_fit(text_at(src, off).len() as int)
}

/// One placement step from `off` in `area`, pages being `full` high: the next
/// offset, the area left when the page goes on, and the layout of what was
/// placed when it takes any room.
pub open spec fn step<S: ParagraphSource>(src: &S, off: PageOffset, area: Rect, full: int) -> (
    PageOffset,
    Option<Rect>,
    Option<TextLayout>,
) {
    let p = src.spec_at(off.par as int);
    let next_par = PageOffset { par: (off.par + 1) as usize, chr: 0 };
    if p.content.len() == 0 {
        (next_par, Some(area), None)
    } else if defers(src, off, area, full) {
        (off, None, None)
    } else {
        let fit = fit_at(src, off, area);
        let y = (area.y0 + area.split_height(fit.spec_height() as int)) as i16;
        let placed = TextLayout { bounds: Rect { y1: y, ..area }, ..p.spec_layout(area) };
        let rest = Rect { y0: y, ..area };
        let layout = if fit.spec_height() > 0 {
            Some(placed)
        } else {
            None
        };
        match fit {
            LayoutFit::Fitting { .. } => (
                next_par,
                if p.break_after {
                    None
                } else {
                    Some(rest)
                },
                layout,
            ),
            LayoutFit::OutOfBounds { processed_chars, .. } => (
                PageOffset { par: off.par, chr: (off.chr + processed_chars) as usize },
                None,
                layout,
            ),
        }
    }
}

/// The text that the step at `off` places.
pub open spec fn step_text<S: ParagraphSource>(src: &S, off: PageOffset, area: Rect, full: int) -> Seq<
    char,
> {
    let text = text_at(src, off);
    if text.len() == 0 || defers(src, off, area, full) {
        Seq::empty()
    } else {
        match fit_at(src, off, area) {
            LayoutFit::Fitting { .. } => text,
            LayoutFit::OutOfBounds { processed_chars, .. } => text.take(processed_chars as int),
        }
    }
}

/// `b` comes strictly after `a` within paragraph `a.par`, before its end.
pub open spec fn moves_within<S: ParagraphSource>(src: &S, a: PageOffset, b: PageOffset) -> bool {
    &&& b.par == a.par
    &&& a.chr < b.chr
    &&& b.chr < src.spec_at(a.par as int).content.len()
}

/// Whether paragraph `i` has no text at all, `p` being its text from
/// character `chr` on.
pub fn paragraph_is_empty<S: ParagraphSource>(
    source: &S,
    i: usize,
    chr: usize,
    p: &Paragraph<String>,
) -> (r: bool)
    requires
        i < source.spec_size(),
        p.content@ == suffix(source.spec_at(i as int).content, chr as int),
    ensures
        r == (source.spec_at(i as int).content.len() == 0),
{
    if !p.content.as_str().is_empty() {
        return false;
    }
    if chr == 0 {
        assert(suffix(source.spec_at(i as int).content, 0) =~= source.spec_at(i as int).content);
        return true;
    }
    let whole = source.at(i, 0);
    assert(suffix(source.spec_at(i as int).content, 0) =~= source.spec_at(i as int).content);
    whole.content.as_str().is_empty()
}

impl PageOffset {
    /// Places the paragraph at `self` into `area`; see `step`.
    pub fn advance<S: ParagraphSource>(self, area: Rect, source: &S, full_height: i16) -> (r: (
        PageOffset,
        Option<Rect>,
        Option<TextLayout>,
    ))
        requires
            self.par < source.spec_size(),
        ensures
            r == step(source, self, area, full_height as int),
            r.1.is_some() ==> r.0.par == self.par + 1,
            r.0.par == self.par + 1 || r.0 == self || moves_within(source, self, r.0),
    {
        let size: usize = source.size();
        let paragraph = source.at(self.par, self.chr);
        if paragraph_is_empty(source, self.par, self.chr, &paragraph) {
            return (PageOffset { par: self.par + 1, chr: 0 }, Some(area), None);
        }
        if paragraph.no_break && self.chr == 0 && self.par + 1 < size {
            let next = source.at(self.par + 1, 0);
            proof {
                assert(suffix(source.spec_at(self.par as int).content, 0) =~= source.spec_at(
                    self.par as int,
                ).content);
                assert(suffix(source.spec_at(self.par + 1).content, 0) =~= source.spec_at(
                    self.par + 1,
                ).content);
            }
            if Self::should_place_pair_on_next_page(&paragraph, &next, area, full_height) {
                return (self, None, None);
            }
        }
        let mut layout = paragraph.layout(area);
        let fit = layout.fit_text(paragraph.content.as_str());
        proof {
            lemma_fit_bounds(
                *paragraph.style,
                area.spec_width(),
                area.spec_height(),
                paragraph.content@.len() as int,
            );
        }
        let (used, remaining_area) = area.split_top(fit.height());
        layout.bounds = used;
        let shown = if fit.height() > 0 {
            Some(layout)
        } else {
            None
        };
        match fit {
            LayoutFit::Fitting { .. } => {
                let rest = if paragraph.break_after {
                    None
                } else {
                    Some(remaining_area)
                };
                (PageOffset { par: self.par + 1, chr: 0 }, rest, shown)
            },
            LayoutFit::OutOfBounds { processed_chars, .. } => {
                (PageOffset { par: self.par, chr: self.chr + processed_chars }, None, shown)
            },
        }
    }

    /// Whether the pair `this_paragraph`, `next_paragraph` (both from their
    /// start) should move whole to the next page; see `pair_on_next_page`.
    pub fn should_place_pair_on_next_page(
        this_paragraph: &Paragraph<String>,
        next_paragraph: &Paragraph<String>,
        area: Rect,
        full_height: i16,
    ) -> (r: bool)
        ensures
            r == pair_on_next_page(this_paragraph.model(), next_paragraph.model(), area, full_height as int),
    {
        // Never break if we're at the beginning of the page.
        let remaining_height = area.height();
        if remaining_height >= full_height {
            return false;
        }
        let full_area = Rect { x0: area.x0, y0: 0, x1: area.x1, y1: full_height };
        let key_height = this_paragraph.layout(full_area).fit_text(
            this_paragraph.content.as_str(),
        ).height();
        let val_height = next_paragraph.layout(full_area).fit_text(
            next_paragraph.content.as_str(),
        ).height();
        let screen_full_threshold: i32 = 2 * this_paragraph.style.line_height() as i32;
        let pair_height: i32 = key_height as i32 + val_height as i32;
        if pair_height > remaining_height as i32 {
            // At most two lines of the key remain: put everything on
            // the next page. Or more remain but not one line of the value
            // would fit. Or the pair fits on a page by itself.
            return remaining_height as i32 <= screen_full_threshold || (val_height > 0
                && key_height > remaining_height) || pair_height <= full_height as i32;
        }
        // None of the above, continue fitting on the same page.
        false
    }
}

/// The layouts of one page filled from `off` in `area`, pages being `full`
/// high: steps go on while each leaves room, and stop at the end of the
/// source.
pub open spec fn fill<S: ParagraphSource>(src: &S, off: PageOffset, area: Rect, full: int) -> Seq<
    TextLayout,
>
    decreases src.spec_size() - off.par,
{
    if off.par >= src.spec_size() {
        Seq::empty()
    } else {
        let r = step(src, off, area, full);
        let head = match r.2 {
            Some(l) => seq![l],
            None => Seq::empty(),
        };
        match r.1 {
            Some(rest) => if r.0.par == off.par + 1 {
                head + fill(src, r.0, rest, full)
            } else {
                head
            },
            None => head,
        }
    }
}

/// The text of one page filled from `off`, in the order it is placed.
pub open spec fn page_text<S: ParagraphSource>(src: &S, off: PageOffset, area: Rect, full: int) -> Seq<
    char,
>
    decreases src.spec_size() - off.par,
{
    if off.par >= src.spec_size() {
        Seq::empty()
    } else {
        let r = step(src, off, area, full);
        let head = step_text(src, off, area, full);
        match r.1 {
            Some(rest) => if r.0.par == off.par + 1 {
                head + page_text(src, r.0, rest, full)
            } else {
                head
            },
            None => head,
        }
    }
}

/// Where the page after the one that starts at `off` starts, or `None` when
/// that page reaches the end of the source.
pub open spec fn next_break<S: ParagraphSource>(
    src: &S,
    off: PageOffset,
    area: Rect,
    full: int,
) -> Option<PageOffset>
    decreases src.spec_size() - off.par,
{
    if off.par >= src.spec_size() {
        None
    } else {
        let r = step(src, off, area, full);
        if r.0.par >= src.spec_size() {
            None
        } else {
            match r.1 {
                Some(rest) => if r.0.par == off.par + 1 {
                    next_break(src, r.0, rest, full)
                } else {
                    None
                },
                None => Some(r.0),
            }
        }
    }
}

/// Start of page `k` of `src` in `area`: the first page starts at offset
/// zero, each next one where the previous one ends. The sequence ends at the
/// last page, or where a page would start where the previous one did.
pub open spec fn page_break<S: ParagraphSource>(src: &S, area: Rect, k: nat) -> Option<PageOffset>
    decreases k,
{
    if k == 0 {
        Some(first_offset())
    } else {
        match page_break(src, area, (k - 1) as nat) {
            Some(o) => match next_break(src, o, area, area.spec_height()) {
                Some(n) => if n != o {
                    Some(n)
                } else {
                    None
                },
                None => None,
            },
            None => None,
        }
    }
}

/// Once the sequence of page starts has ended it stays ended.
pub proof fn lemma_page_break_ended<S: ParagraphSource>(src: &S, area: Rect, j: nat, k: nat)
    requires
        j <= k,
        page_break(src, area, j).is_none(),
    ensures
        page_break(src, area, k).is_none(),
    decreases k - j,
{
    if j < k {
        lemma_page_break_ended(src, area, j, (k - 1) as nat);
    }
}

/// The page count and the sequence of page starts agree: when page `k` has
/// a start exactly for `k` below `count` (what `page_count` returns below
/// the largest `usize`), the sequence yields `count` starts, at least one,
/// and then nothing more.
pub proof fn lemma_page_count_matches_breaks<S: ParagraphSource>(src: &S, area: Rect, count: nat)
    requires
        forall|k: nat| k < count ==> (#[trigger] page_break(src, area, k)).is_some(),
        page_break(src, area, count).is_none(),
    ensures
        count >= 1,
        forall|k: nat| (#[trigger] page_break(src, area, k)).is_some() <==> k < count,
{
    assert(page_break(src, area, 0).is_some());
    assert forall|k: nat| (#[trigger] page_break(src, area, k)).is_some() <==> k < count by {
        if k >= count {
            lemma_page_break_ended(src, area, count, k);
        }
    }
}

/// Measure of pagination progress: the paragraphs left, then the characters
/// left in the current one.
pub open spec fn chars_left<S: ParagraphSource>(src: &S, off: PageOffset) -> nat {
    if off.chr <= src.spec_at(off.par as int).content.len() {
        (src.spec_at(off.par as int).content.len() - off.chr) as nat
    } else {
        0
    }
}

} // verus!
