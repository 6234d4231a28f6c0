//! What holds of every pagination: text is neither lost nor repeated,
//! empty paragraphs take no room, `break_after` ends a page, and a
//! `no_break` pair that fits a page stays together.
use vstd::prelude::*;

use crate::geometry::Rect;
use crate::layout::{lemma_fit_bounds, lemma_fits_whole, lemma_lines_nonneg, LayoutFit, TextLayout};
use crate::pagination::{
    chars_left, defers, fill, first_offset, fit_at, moves_within, next_break, page_text, step,
    step_text, text_at, page_break, PageOffset,
};
use crate::paragraph::{Paragraph, ParagraphSource};

verus! {

/// Sizes that fit in memory: as many paragraphs as a `usize` counts, each
/// with as many characters.
pub open spec fn source_fits<S: ParagraphSource>(src: &S) -> bool {
    &&& src.spec_size() <= usize::MAX
    &&& forall|i: int| 0 <= i < src.spec_size() ==> (#[trigger] src.spec_at(i)).content.len() <= usize::MAX
}

/// Every paragraph has room for one line on a page of `area`.
pub open spec fn lines_fit_page<S: ParagraphSource>(src: &S, area: Rect) -> bool {
    forall|i: int|
        0 <= i < src.spec_size() ==> (#[trigger] src.spec_at(i)).style.spec_line_height()
            <= area.spec_height()
}

/// The text of paragraphs `from` onward, one after the other.
pub open spec fn all_text<S: ParagraphSource>(src: &S, from: int) -> Seq<char>
    decreases src.spec_size() - from,
{
    if from < 0 || from >= src.spec_size() {
        Seq::empty()
    } else {
        src.spec_at(from).content + all_text(src, from + 1)
    }
}

/// The text still to place from `off` to the end of the source.
pub open spec fn text_after<S: ParagraphSource>(src: &S, off: PageOffset) -> Seq<char> {
    if off.par >= src.spec_size() {
        Seq::empty()
    } else {
        text_at(src, off) + all_text(src, off.par + 1)
    }
}

/// The text of the pages from the one that starts at `off` to the last, in
/// order.
pub open spec fn pages_text<S: ParagraphSource>(src: &S, area: Rect, off: PageOffset) -> Seq<char>
    decreases src.spec_size() - off.par, chars_left(src, off),
{
    if off.par >= src.spec_size() {
        Seq::empty()
    } else {
        let page = page_text(src, off, area, area.spec_height());
        match next_break(src, off, area, area.spec_height()) {
            Some(n) => if (off.par < n.par < src.spec_size()) || moves_within(src, off, n) {
                page + pages_text(src, area, n)
            } else {
                page
            },
            None => page,
        }
    }
}

/// An empty paragraph takes no room and shows nothing: the page goes on with
/// the next paragraph, in the same area.
pub proof fn lemma_empty_paragraph_skipped<S: ParagraphSource>(
    src: &S,
    off: PageOffset,
    area: Rect,
    full: int,
)
    requires
        source_fits(src),
        off.par < src.spec_size(),
        src.spec_at(off.par as int).content.len() == 0,
    ensures
        step(src, off, area, full) == (PageOffset { par: (off.par + 1) as usize, chr: 0 }, Some(
            area,
        ), None::<TextLayout>),
        fill(src, off, area, full) == fill(
            src,
            PageOffset { par: (off.par + 1) as usize, chr: 0 },
            area,
            full,
        ),
        page_text(src, off, area, full) == page_text(
            src,
            PageOffset { par: (off.par + 1) as usize, chr: 0 },
            area,
            full,
        ),
        next_break(src, off, area, full) == next_break(
            src,
            PageOffset { par: (off.par + 1) as usize, chr: 0 },
            area,
            full,
        ),
{
    let next = PageOffset { par: (off.par + 1) as usize, chr: 0 };
    assert(text_at(src, off).len() == 0);
    assert(fill(src, off, area, full) =~= Seq::<TextLayout>::empty() + fill(src, next, area, full));
    assert(page_text(src, off, area, full) =~= Seq::<char>::empty() + page_text(src, next, area, full));
}

/// A paragraph marked `break_after` that is placed to its end is the last
/// one on its page: the page ends with it and the next page starts at the
/// next paragraph.
pub proof fn lemma_break_after_ends_page<S: ParagraphSource>(
    src: &S,
    off: PageOffset,
    area: Rect,
    full: int,
)
    requires
        source_fits(src),
        off.par < src.spec_size(),
        src.spec_at(off.par as int).break_after,
        src.spec_at(off.par as int).content.len() > 0,
        step(src, off, area, full).0 == (PageOffset { par: (off.par + 1) as usize, chr: 0 }),
    ensures
        step(src, off, area, full).1.is_none(),
        fill(src, off, area, full) == match step(src, off, area, full).2 {
            Some(l) => seq![l],
            None => Seq::<TextLayout>::empty(),
        },
        off.par + 1 < src.spec_size() ==> next_break(src, off, area, full) == Some(
            PageOffset { par: (off.par + 1) as usize, chr: 0 },
        ),
{
}

/// Each step places text that, followed by what is left after it, is what
/// was left before it.
proof fn lemma_step_text<S: ParagraphSource>(src: &S, off: PageOffset, area: Rect, full: int)
    requires
        source_fits(src),
        off.par < src.spec_size(),
    ensures
        step_text(src, off, area, full) + text_after(src, step(src, off, area, full).0)
            == text_after(src, off),
        step(src, off, area, full).0.par >= off.par,
{
    let c = src.spec_at(off.par as int).content;
    let text = text_at(src, off);
    let r = step(src, off, area, full);
    let next_par = PageOffset { par: (off.par + 1) as usize, chr: 0 };
    assert(text_after(src, next_par) =~= all_text(src, off.par + 1)) by {
        if off.par + 1 < src.spec_size() {
            assert(text_at(src, next_par) =~= src.spec_at(off.par + 1).content);
        }
    }
    if c.len() == 0 {
        assert(step_text(src, off, area, full) + text_after(src, r.0) =~= text_after(src, off));
    } else if defers(src, off, area, full) {
        assert(step_text(src, off, area, full) + text_after(src, r.0) =~= text_after(src, off));
    } else {
        let fit = fit_at(src, off, area);
        lemma_fit_bounds(
            *src.spec_at(off.par as int).style,
            area.spec_width(),
            area.spec_height(),
            text.len() as int,
        );
        match fit {
            LayoutFit::Fitting { .. } => {
                assert(step_text(src, off, area, full) + text_after(src, r.0) =~= text_after(src, off));
            },
            LayoutFit::OutOfBounds { processed_chars, .. } => {
                let p = processed_chars as int;
                assert(off.chr + p < c.len());
                assert(r.0 == PageOffset { par: off.par, chr: (off.chr + p) as usize });
                assert(text_at(src, r.0) =~= c.skip(off.chr + p));
                assert(text.take(p) + c.skip(off.chr + p) =~= text);
                assert(step_text(src, off, area, full) + text_after(src, r.0) =~= text_after(src, off));
            },
        }
    }
}

/// A page's text followed by what is left after the page is what was left
/// before it.
proof fn lemma_page_text<S: ParagraphSource>(src: &S, off: PageOffset, area: Rect, full: int)
    requires
        source_fits(src),
        off.par < src.spec_size(),
    ensures
        match next_break(src, off, area, full) {
            Some(n) => page_text(src, off, area, full) + text_after(src, n) == text_after(src, off),
            None => page_text(src, off, area, full) == text_after(src, off),
        },
    decreases src.spec_size() - off.par,
{
    let r = step(src, off, area, full);
    let head = step_text(src, off, area, full);
    lemma_step_text(src, off, area, full);
    if r.0.par >= src.spec_size() {
        assert(text_after(src, r.0) =~= Seq::<char>::empty());
        match r.1 {
            Some(rest) => {
                if r.0.par == off.par + 1 {
                    assert(page_text(src, r.0, rest, full) =~= Seq::<char>::empty());
                }
            },
            None => {},
        }
        assert(page_text(src, off, area, full) =~= head);
    } else {
        match r.1 {
            Some(rest) => {
                if r.0.par == off.par + 1 {
                    lemma_page_text(src, r.0, rest, full);
                    match next_break(src, r.0, rest, full) {
                        Some(n) => {
                            assert(head + page_text(src, r.0, rest, full) + text_after(src, n) =~= head
                                + (page_text(src, r.0, rest, full) + text_after(src, n)));
                        },
                        None => {},
                    }
                }
            },
            None => {},
        }
    }
}

/// A page start comes at or after the start of the page before it.
proof fn lemma_next_break_forward<S: ParagraphSource>(src: &S, off: PageOffset, area: Rect, full: int)
    requires
        source_fits(src),
    ensures
        next_break(src, off, area, full) matches Some(n) ==> off.par <= n.par < src.spec_size(),
    decreases src.spec_size() - off.par,
{
    if off.par < src.spec_size() {
        lemma_step_text(src, off, area, full);
        let r = step(src, off, area, full);
        if r.0.par < src.spec_size() {
            if let Some(rest) = r.1 {
                if r.0.par == off.par + 1 {
                    lemma_next_break_forward(src, r.0, rest, full);
                }
            }
        }
    }
}

/// When every paragraph has room for a line on a page, each page starts
/// strictly after the one before it.
proof fn lemma_pages_progress<S: ParagraphSource>(src: &S, area: Rect, off: PageOffset)
    requires
        source_fits(src),
        lines_fit_page(src, area),
        off.par < src.spec_size(),
    ensures
        next_break(src, off, area, area.spec_height()) matches Some(n) ==> (off.par < n.par
            < src.spec_size()) || moves_within(src, off, n),
{
    let full = area.spec_height();
    let r = step(src, off, area, full);
    let text = text_at(src, off);
    lemma_step_text(src, off, area, full);
    let p = src.spec_at(off.par as int);
    lemma_fit_bounds(*p.style, area.spec_width(), area.spec_height(), text.len() as int);
    if text.len() > 0 {
        assert(!defers(src, off, area, full));
        if let LayoutFit::OutOfBounds { processed_chars, .. } = fit_at(src, off, area) {
            assert(off.chr + processed_chars < p.content.len());
            assert(moves_within(src, off, r.0));
        }
    }
    if r.0.par < src.spec_size() {
        if let Some(rest) = r.1 {
            if r.0.par == off.par + 1 {
                lemma_next_break_forward(src, r.0, rest, full);
            }
        }
    }
}

proof fn lemma_pages_text_from<S: ParagraphSource>(src: &S, area: Rect, off: PageOffset)
    requires
        source_fits(src),
        lines_fit_page(src, area),
    ensures
        pages_text(src, area, off) == text_after(src, off),
    decreases src.spec_size() - off.par, chars_left(src, off),
{
    if off.par < src.spec_size() {
        lemma_page_text(src, off, area, area.spec_height());
        lemma_pages_progress(src, area, off);
        if let Some(n) = next_break(src, off, area, area.spec_height()) {
            lemma_pages_text_from(src, area, n);
        }
    }
}

/// Read page after page from the first, the placed text is the text of all
/// paragraphs in order, nothing left out and nothing repeated, when every
/// paragraph has room for a line on a page.
pub proof fn lemma_pages_reproduce_text<S: ParagraphSource>(src: &S, area: Rect)
    requires
        source_fits(src),
        lines_fit_page(src, area),
    ensures
        pages_text(src, area, first_offset()) == all_text(src, 0),
{
    lemma_pages_text_from(src, area, first_offset());
    if src.spec_size() > 0 {
        assert(text_at(src, first_offset()) =~= src.spec_at(0).content);
    }
}

/// Height that the whole text of `p` takes in an area `width` wide.
pub open spec fn natural_height(p: Paragraph<Seq<char>>, width: int) -> int {
    p.style.lines_needed(width, p.content.len() as int) * p.style.spec_line_height()
}

/// From `off`, the paragraph there and the one after it are both placed to
/// their end on the current page.
pub open spec fn pair_placed<S: ParagraphSource>(src: &S, off: PageOffset, area: Rect, full: int) -> bool {
    let r = step(src, off, area, full);
    &&& r.0 == (PageOffset { par: (off.par + 1) as usize, chr: 0 })
    &&& r.1.is_some()
    &&& step(src, r.0, r.1.unwrap(), full).0 == (PageOffset { par: (off.par + 2) as usize, chr: 0 })
}

/// A pair marked `no_break` whose two paragraphs together fit on one page is
/// never split across pages: the step at its start either moves it whole to
/// the next page, or places both paragraphs to their end; and on a fresh
/// page it always places both. (The key does not end its page by
/// `break_after`, and the value is not itself the key of a pair.)
pub proof fn lemma_no_break_pair_kept<S: ParagraphSource>(
    src: &S,
    off: PageOffset,
    area: Rect,
    full: int,
)
    requires
        source_fits(src),
        off.par + 1 < src.spec_size(),
        off.chr == 0,
        src.spec_at(off.par as int).no_break,
        !src.spec_at(off.par as int).break_after,
        src.spec_at(off.par as int).content.len() > 0,
        !src.spec_at(off.par + 1).no_break,
        area.spec_height() <= full <= i16::MAX,
        natural_height(src.spec_at(off.par as int), area.spec_width()) + natural_height(
            src.spec_at(off.par + 1),
            area.spec_width(),
        ) <= full,
    ensures
        step(src, off, area, full) == (off, None::<Rect>, None::<TextLayout>) || pair_placed(
            src,
            off,
            area,
            full,
        ),
        area.spec_height() == full ==> pair_placed(src, off, area, full),
{
    let key = src.spec_at(off.par as int);
    let val = src.spec_at(off.par + 1);
    let w = area.spec_width();
    let rem = area.spec_height();
    let kn = key.content.len() as int;
    let vn = val.content.len() as int;
    let kh = natural_height(key, w);
    let vh = natural_height(val, w);
    lemma_lines_nonneg(*key.style, w, kn);
    lemma_lines_nonneg(*val.style, w, vn);
    lemma_fits_whole(*key.style, w, full, kn);
    lemma_fits_whole(*val.style, w, full, vn);
    assert(text_at(src, off) =~= key.content);
    if !defers(src, off, area, full) {
        assert(kh + vh <= rem);
        lemma_fits_whole(*key.style, w, rem, kn);
        let r = step(src, off, area, full);
        let next = PageOffset { par: (off.par + 1) as usize, chr: 0 };
        assert(r.0 == next);
        let rest = r.1.unwrap();
        assert(rest.spec_width() == w);
        assert(rest.spec_height() >= rem - kh);
        assert(text_at(src, next) =~= val.content);
        if vn > 0 {
            lemma_fits_whole(*val.style, w, rest.spec_height(), vn);
        }
    }
}

/// The fill of the page from `o` in `area` comes to the step at `t` in `ta`:
/// every step before it leaves room and moves to the next paragraph.
pub open spec fn reaches<S: ParagraphSource>(
    src: &S,
    o: PageOffset,
    area: Rect,
    full: int,
    t: PageOffset,
    ta: Rect,
) -> bool
    decreases src.spec_size() - o.par,
{
    if o == t && area == ta {
        true
    } else if o.par >= src.spec_size() {
        false
    } else {
        let r = step(src, o, area, full);
        match r.1 {
            Some(rest) => if r.0.par == o.par + 1 {
                reaches(src, r.0, rest, full, t, ta)
            } else {
                false
            },
            None => false,
        }
    }
}

/// A page reaching the step at `t` ends where the fill from `t` ends.
proof fn lemma_reaches_next_break<S: ParagraphSource>(
    src: &S,
    o: PageOffset,
    area: Rect,
    full: int,
    t: PageOffset,
    ta: Rect,
)
    requires
        reaches(src, o, area, full, t, ta),
        t.par < src.spec_size(),
    ensures
        next_break(src, o, area, full) == next_break(src, t, ta, full),
        t.par >= o.par,
    decreases src.spec_size() - o.par,
{
    if !(o == t && area == ta) {
        let r = step(src, o, area, full);
        lemma_reaches_next_break(src, r.0, r.1.unwrap(), full, t, ta);
    }
}

/// A paragraph marked `break_after` that the page starting at page start
/// `j` places to its end is the last one on that page: page `j + 1` starts
/// at the next paragraph.
pub proof fn lemma_break_after_ends_page_start<S: ParagraphSource>(
    src: &S,
    area: Rect,
    j: nat,
    c: PageOffset,
    t: PageOffset,
    ta: Rect,
)
    requires
        source_fits(src),
        page_break(src, area, j) == Some(c),
        reaches(src, c, area, area.spec_height(), t, ta),
        t.par + 1 < src.spec_size(),
        src.spec_at(t.par as int).break_after,
        src.spec_at(t.par as int).content.len() > 0,
        step(src, t, ta, area.spec_height()).0 == (PageOffset { par: (t.par + 1) as usize, chr: 0 }),
    ensures
        page_break(src, area, j + 1) == Some(PageOffset { par: (t.par + 1) as usize, chr: 0 }),
{
    let full = area.spec_height();
    lemma_reaches_next_break(src, c, area, full, t, ta);
    lemma_break_after_ends_page(src, t, ta, full);
    assert(page_break(src, area, j + 1) == match page_break(src, area, j) {
        Some(o) => match next_break(src, o, area, full) {
            Some(n) => if n != o {
                Some(n)
            } else {
                None
            },
            None => None,
        },
        None => None,
    });
}

/// Page starts that would split the pair at `k`: at the value, or inside
/// the key.
pub open spec fn splits_pair(c: PageOffset, k: int) -> bool {
    (c.par == k + 1 && c.chr == 0) || (c.par == k && c.chr > 0)
}

/// The pair at `k` is marked to stay together, fits a page `w` wide and
/// `full` high, its key does not end its page by itself and its value is
/// not the key of another pair.
pub open spec fn pair_fits_page<S: ParagraphSource>(src: &S, k: int, w: int, full: int) -> bool {
    &&& 0 <= k
    &&& k + 1 < src.spec_size()
    &&& src.spec_at(k).no_break
    &&& !src.spec_at(k).break_after
    &&& src.spec_at(k).content.len() > 0
    &&& !src.spec_at(k + 1).no_break
    &&& natural_height(src.spec_at(k), w) + natural_height(src.spec_at(k + 1), w) <= full
}

proof fn lemma_next_break_keeps_pair<S: ParagraphSource>(
    src: &S,
    o: PageOffset,
    a: Rect,
    full: int,
    k: int,
)
    requires
        source_fits(src),
        full <= i16::MAX,
        a.spec_height() <= full,
        pair_fits_page(src, k, a.spec_width(), full),
        !splits_pair(o, k),
    ensures
        next_break(src, o, a, full) matches Some(n) ==> !splits_pair(n, k),
    decreases src.spec_size() - o.par,
{
    if o.par < src.spec_size() {
        let r = step(src, o, a, full);
        let p = src.spec_at(o.par as int);
        let text = text_at(src, o);
        lemma_fit_bounds(*p.style, a.spec_width(), a.spec_height(), text.len() as int);
        if let LayoutFit::OutOfBounds { processed_chars, .. } = fit_at(src, o, a) {
            if text.len() > 0 {
                assert(o.chr + processed_chars < p.content.len());
            }
        }
        if o.par == k {
            lemma_no_break_pair_kept(src, o, a, full);
        }
        if r.0.par < src.spec_size() {
            if let Some(rest) = r.1 {
                if r.0.par == o.par + 1 {
                    assert(rest.spec_height() <= a.spec_height());
                    assert(rest.spec_width() == a.spec_width());
                    if o.par == k {
                        let r2 = step(src, r.0, rest, full);
                        assert(r2.0 == PageOffset { par: (k + 2) as usize, chr: 0 });
                        if r2.0.par < src.spec_size() {
                            if let Some(rest2) = r2.1 {
                                assert(rest2.spec_height() <= rest.spec_height());
                                assert(rest2.spec_width() == rest.spec_width());
                                lemma_next_break_keeps_pair(src, r2.0, rest2, full, k);
                            }
                        }
                        assert(next_break(src, r.0, rest, full) == if r2.0.par >= src.spec_size() {
                            None
                        } else {
                            match r2.1 {
                                Some(rest2) => if r2.0.par == r.0.par + 1 {
                                    next_break(src, r2.0, rest2, full)
                                } else {
                                    None
                                },
                                None => Some(r2.0),
                            }
                        });
                    } else {
                        lemma_next_break_keeps_pair(src, r.0, rest, full, k);
                    }
                }
            }
        }
    }
}

/// A pair marked `no_break` that fits on one page is never split: no page
/// starts at its value or inside its key, so the key's last line and the
/// value's first line are on one page. (Its key does not end the page by
/// `break_after`, and its value is not the key of another pair.)
pub proof fn lemma_no_break_pair_never_split<S: ParagraphSource>(
    src: &S,
    area: Rect,
    k: int,
    j: nat,
)
    requires
        source_fits(src),
        pair_fits_page(src, k, area.spec_width(), area.spec_height()),
    ensures
        page_break(src, area, j) matches Some(c) ==> !splits_pair(c, k),
    decreases j,
{
    if j > 0 {
        lemma_no_break_pair_never_split(src, area, k, (j - 1) as nat);
        if let Some(c) = page_break(src, area, (j - 1) as nat) {
            lemma_next_break_keeps_pair(src, c, area, area.spec_height(), k);
        }
    }
}

} // verus!
