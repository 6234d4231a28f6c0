//! The page renderer: the layouts of the current page, page count and
//! page changes, and the sequence of page starts.
use vstd::prelude::*;

use crate::arrange::{arrange, arranged};
use crate::geometry::{LinearPlacement, Rect};
use crate::layout::TextLayout;
use crate::pagination::{
    chars_left, fill, first_offset, paragraph_is_empty, moves_within, next_break, page_break, text_at,
    lemma_page_break_ended, PageOffset,
};
use crate::paragraph::ParagraphSource;

verus! {

/// Spacing between paragraphs unless a placement says otherwise.
pub const DEFAULT_SPACING: i16 = 0;

/// Upper bound on the number of layouts kept for one page.
pub const MAX_LINES: usize = 10;

#[verifier::external_type_specification]
#[verifier::external_body]
#[verifier::reject_recursive_types(T)]
pub struct ExHeaplessVec<T, const N: usize>(heapless::Vec<T, N>);

/// The layouts that a bounded list of visible layouts holds, in order.
pub uninterp spec fn layouts_of(v: heapless::Vec<TextLayout, MAX_LINES>) -> Seq<TextLayout>;

/// Relies on heapless::Vec::new: a new list is empty.
#[verifier::external_body]
fn layouts_new() -> (r: heapless::Vec<TextLayout, MAX_LINES>)
    ensures
        layouts_of(r) == Seq::<TextLayout>::empty(),
{
    heapless::Vec::new()
}

/// Relies on heapless::Vec::clear: the list is empty afterwards.
#[verifier::external_body]
fn layouts_clear(v: &mut heapless::Vec<TextLayout, MAX_LINES>)
    ensures
        layouts_of(*final(v)) == Seq::<TextLayout>::empty(),
{
    v.clear()
}

/// Relies on heapless::Vec::push: the item is appended when the list holds
/// fewer than its capacity, and the list is left unchanged otherwise.
#[verifier::external_body]
fn layouts_push(v: &mut heapless::Vec<TextLayout, MAX_LINES>, item: TextLayout) -> (r: bool)
    ensures
        r == (layouts_of(*old(v)).len() < MAX_LINES),
        r ==> layouts_of(*final(v)) == layouts_of(*old(v)).push(item),
        !r ==> layouts_of(*final(v)) == layouts_of(*old(v)),
{
    v.push(item).is_ok()
}

/// Relies on heapless::Vec::as_slice: the items in order, never more than
/// the capacity.
#[verifier::external_body]
fn layouts_slice(v: &heapless::Vec<TextLayout, MAX_LINES>) -> (r: &[TextLayout])
    ensures
        r@ == layouts_of(*v),
        r@.len() <= MAX_LINES,
{
    v.as_slice()
}

/// The first `MAX_LINES` layouts of `s`: what a bounded list keeps.
pub open spec fn capped(s: Seq<TextLayout>) -> Seq<TextLayout> {
    if s.len() <= MAX_LINES {
        s
    } else {
        s.take(MAX_LINES as int)
    }
}

/// The texts of the non-empty paragraphs from `off` on, the first taken
/// from the offset's character (empty when the offset is at its end).
pub open spec fn texts_from<S: ParagraphSource>(src: &S, off: PageOffset) -> Seq<Seq<char>>
    decreases src.spec_size() - off.par,
{
    if off.par >= src.spec_size() || off.par >= usize::MAX {
        Seq::empty()
    } else {
        let rest = texts_from(src, PageOffset { par: (off.par + 1) as usize, chr: 0 });
        if src.spec_at(off.par as int).content.len() == 0 {
            rest
        } else {
            seq![text_at(src, off)] + rest
        }
    }
}

proof fn lemma_capped_push(acc: Seq<TextLayout>, l: TextLayout)
    ensures
        capped(acc).len() < MAX_LINES <==> acc.len() < MAX_LINES,
        acc.len() < MAX_LINES ==> capped(acc.push(l)) == capped(acc).push(l),
        acc.len() >= MAX_LINES ==> capped(acc.push(l)) == capped(acc),
{
    if acc.len() >= MAX_LINES {
        assert(capped(acc.push(l)) =~= capped(acc));
    }
}

/// A page renderer: owns a source of paragraphs, the area it fills, where
/// the current page starts, and the layouts visible on it.
pub struct Paragraphs<T> {
    pub area: Rect,
    pub placement: LinearPlacement,
    pub offset: PageOffset,
    pub visible: heapless::Vec<TextLayout, MAX_LINES>,
    pub source: T,
}

impl<T> Paragraphs<T> {
    /// The layouts of the current page.
    pub open spec fn spec_visible(&self) -> Seq<TextLayout> {
        layouts_of(self.visible)
    }

    pub fn new(source: T) -> (r: Self)
        ensures
            r.area == Rect::spec_zero(),
            r.placement == (LinearPlacement {
                align: crate::geometry::Alignment::Center,
                spacing: DEFAULT_SPACING,
            }),
            r.offset == first_offset(),
            r.spec_visible() == Seq::<TextLayout>::empty(),
            r.source == source,
    {
        Paragraphs {
            area: Rect::zero(),
            placement: LinearPlacement::vertical().align_at_center().with_spacing(DEFAULT_SPACING),
            offset: PageOffset::default(),
            visible: layouts_new(),
            source,
        }
    }
}

impl<T: ParagraphSource> Paragraphs<T> {
    /// Start of page `k` for the current source and area.
    pub open spec fn spec_page_break(&self, k: nat) -> Option<PageOffset> {
        page_break(&self.source, self.area, k)
    }

    /// The layouts that the page starting at `off` has in the current area.
    pub open spec fn spec_fill(&self, off: PageOffset) -> Seq<TextLayout> {
        arranged(
            self.placement,
            self.area,
            capped(fill(&self.source, off, self.area, self.area.spec_height())),
        )
    }

    pub fn with_placement(self, placement: LinearPlacement) -> (r: Self)
        ensures
            r == (Paragraphs { placement, ..self }),
    {
        Paragraphs { placement, ..self }
    }

    pub fn with_spacing(self, spacing: i16) -> (r: Self)
        ensures
            r == (Paragraphs { placement: LinearPlacement { spacing, ..self.placement }, ..self }),
    {
        let placement = self.placement.with_spacing(spacing);
        Paragraphs { placement, ..self }
    }

    pub fn inner(&self) -> (r: &T)
        ensures
            *r == self.source,
    {
        &self.source
    }

    pub fn inner_mut(&mut self) -> (r: &mut T)
        ensures
            *r == old(self).source,
            *final(self) == (Paragraphs { source: *final(r), ..*old(self) }),
    {
        &mut self.source
    }

    /// Makes `offset` the start of the current page and lays it out.
    fn change_offset(&mut self, offset: PageOffset)
        ensures
            final(self).offset == offset,
            final(self).spec_visible() == old(self).spec_fill(offset),
            final(self).area == old(self).area,
            final(self).placement == old(self).placement,
            final(self).source == old(self).source,
    {
        self.offset = offset;
        Self::dyn_change_offset(self.area, offset, &self.source, &mut self.visible);
        let placed = arrange(self.placement, self.area, layouts_slice(&self.visible));
        layouts_clear(&mut self.visible);
        let mut i: usize = 0;
        while i < placed.len()
            invariant
                placed@.len() <= MAX_LINES,
                i <= placed@.len(),
                self.offset == offset,
                self.area == old(self).area,
                self.placement == old(self).placement,
                self.source == old(self).source,
                layouts_of(self.visible) == placed@.take(i as int),
            decreases placed@.len() - i,
        {
            let _ = layouts_push(&mut self.visible, placed[i]);
            assert(placed@.take(i as int).push(placed@[i as int]) =~= placed@.take(i + 1));
            i = i + 1;
        }
        assert(placed@.take(i as int) =~= placed@);
    }

    /// Fills `visible` with the layouts of the page that starts at `offset`.
    fn dyn_change_offset(
        area: Rect,
        offset: PageOffset,
        source: &T,
        visible: &mut heapless::Vec<TextLayout, MAX_LINES>,
    )
        ensures
            layouts_of(*final(visible)) == capped(fill(source, offset, area, area.spec_height())),
    {
        layouts_clear(visible);
        let full_height = area.height();
        let size = source.size();
        let ghost whole = fill(source, offset, area, full_height as int);
        let ghost mut acc: Seq<TextLayout> = Seq::empty();
        let mut cur_area = area;
        let mut cur = offset;
        let mut done = false;
        assert(acc + whole =~= whole);
        while !done && cur.par < size
            invariant
                size == source.spec_size(),
                full_height == area.spec_height(),
                layouts_of(*visible) == capped(acc),
                !done ==> acc + fill(source, cur, cur_area, full_height as int) == whole,
                done ==> acc == whole,
            decreases size - cur.par + if done { 0int } else { 1int },
        {
            let (next, rest, layout) = cur.advance(cur_area, source, full_height);
            let ghost head = match layout {
                Some(l) => seq![l],
                None => Seq::<TextLayout>::empty(),
            };
            if let Some(layout) = layout {
                proof {
                    lemma_capped_push(acc, layout);
                }
                // A page with more layouts than the list holds keeps the
                // first ones.
                let _ = layouts_push(visible, layout);
            }
            proof {
                assert(acc + head + fill(source, next, rest.unwrap_or(cur_area), full_height as int)
                    =~= acc + (head + fill(source, next, rest.unwrap_or(cur_area), full_height as int)));
                acc = acc + head;
            }
            match rest {
                Some(r) => {
                    cur_area = r;
                    cur = next;
                },
                None => {
                    done = true;
                },
            }
        }
        proof {
            if !done {
                assert(acc =~= acc + Seq::<TextLayout>::empty());
            }
        }
    }

    /// Start of the page after the one that starts at `offset`; see
    /// `next_break`.
    fn dyn_next(area: Rect, source: &T, offset: PageOffset) -> (r: Option<PageOffset>)
        ensures
            r == next_break(source, offset, area, area.spec_height()),
            r matches Some(n) ==> n.par < source.spec_size() && (n.par > offset.par || n == offset
                || moves_within(source, offset, n)),
    {
        let full_height = area.height();
        let size = source.size();
        let mut cur_area = area;
        let mut cur = offset;
        while cur.par < size
            invariant
                size == source.spec_size(),
                full_height == area.spec_height(),
                next_break(source, cur, cur_area, full_height as int) == next_break(
                    source,
                    offset,
                    area,
                    full_height as int,
                ),
                cur == offset || cur.par > offset.par,
            decreases size - cur.par,
        {
            let (next, rest, _layout) = cur.advance(cur_area, source, full_height);
            if next.par >= size {
                // Last page.
                return None;
            }
            match rest {
                Some(r) => {
                    cur_area = r;
                    cur = next;
                },
                None => {
                    return Some(next);
                },
            }
        }
        None
    }

    /// Start of page `k`; see `page_break`.
    fn nth_break(&self, k: usize) -> (r: Option<PageOffset>)
        ensures
            r == self.spec_page_break(k as nat),
    {
        let mut i: usize = 0;
        let mut cur = PageOffset::default();
        while i < k
            invariant
                i <= k,
                self.spec_page_break(i as nat) == Some(cur),
            decreases k - i,
        {
            match Self::dyn_next(self.area, &self.source, cur) {
                Some(n) => {
                    if n == cur {
                        proof {
                            lemma_page_break_ended(&self.source, self.area, (i + 1) as nat, k as nat);
                        }
                        return None;
                    }
                    cur = n;
                    i = i + 1;
                },
                None => {
                    proof {
                        lemma_page_break_ended(&self.source, self.area, (i + 1) as nat, k as nat);
                    }
                    return None;
                },
            }
        }
        Some(cur)
    }

    /// Number of pages: at least one, and page `k` has a start exactly for
    /// `k` below it (when it is below the largest `usize`).
    pub fn page_count(&self) -> (r: usize)
        ensures
            r >= 1,
            forall|k: nat| k < r ==> (#[trigger] self.spec_page_break(k)).is_some(),
            r < usize::MAX ==> self.spec_page_break(r as nat).is_none(),
    {
        let size = self.source.size();
        let mut count: usize = 1;
        let mut cur = PageOffset::default();
        loop
            invariant
                size == self.source.spec_size(),
                count >= 1,
                cur.par <= size,
                self.spec_page_break((count - 1) as nat) == Some(cur),
                forall|k: nat| k < count ==> (#[trigger] self.spec_page_break(k)).is_some(),
            decreases size - cur.par, chars_left(&self.source, cur),
        {
            if count == usize::MAX {
                return count;
            }
            match Self::dyn_next(self.area, &self.source, cur) {
                Some(n) => {
                    if n == cur {
                        return count;
                    }
                    assert(self.spec_page_break(count as nat) == Some(n));
                    count = count + 1;
                    cur = n;
                },
                None => {
                    return count;
                },
            }
        }
    }

    /// Makes page `to_page` the current one; when there is no such page, the
    /// first page's start with nothing visible.
    pub fn change_page(&mut self, to_page: usize)
        ensures
            old(self).spec_page_break(to_page as nat) matches Some(o) ==> final(self).offset == o
                && final(self).spec_visible() == old(self).spec_fill(o),
            old(self).spec_page_break(to_page as nat).is_none() ==> final(self).offset
                == first_offset() && final(self).spec_visible() == Seq::<TextLayout>::empty(),
            to_page == 0 ==> final(self).offset == first_offset(),
            final(self).area == old(self).area,
            final(self).placement == old(self).placement,
            final(self).source == old(self).source,
    {
        match self.nth_break(to_page) {
            Some(offset) => self.change_offset(offset),
            None => {
                // Should not happen: first paragraph, empty page.
                self.offset = PageOffset::default();
                layouts_clear(&mut self.visible);
            },
        }
    }

    /// Takes `bounds` as the area and lays out the current page in it.
    pub fn place(&mut self, bounds: Rect) -> (r: Rect)
        ensures
            r == bounds,
            final(self).area == bounds,
            final(self).offset == old(self).offset,
            final(self).spec_visible() == arranged(
                old(self).placement,
                bounds,
                capped(fill(&old(self).source, old(self).offset, bounds, bounds.spec_height())),
            ),
            final(self).placement == old(self).placement,
            final(self).source == old(self).source,
    {
        self.area = bounds;
        self.change_offset(self.offset);
        self.area
    }

    /// The visible layouts, each with the text it shows: the layouts in
    /// order, matched with the non-empty paragraphs from the current offset
    /// on (the first from the offset's character). A layout shows the part
    /// of its text that fits its bounds.
    pub fn visible_content(&self) -> (r: Vec<(TextLayout, String)>)
        ensures
            r@.len() == if self.spec_visible().len() <= texts_from(&self.source, self.offset).len() {
                self.spec_visible().len()
            } else {
                texts_from(&self.source, self.offset).len()
            },
            forall|j: int|
                0 <= j < r@.len() ==> (#[trigger] r@[j]).0 == self.spec_visible()[j] && r@[j].1@
                    == texts_from(&self.source, self.offset)[j],
    {
        let layouts = layouts_slice(&self.visible);
        let size = self.source.size();
        let mut out: Vec<(TextLayout, String)> = Vec::new();
        let mut cur = self.offset;
        let ghost whole = texts_from(&self.source, self.offset);
        let ghost mut acc: Seq<Seq<char>> = Seq::empty();
        assert(acc + whole =~= whole);
        while cur.par < size && out.len() < layouts.len()
            invariant
                size == self.source.spec_size(),
                layouts@ == self.spec_visible(),
                out@.len() == acc.len(),
                out@.len() <= layouts@.len(),
                acc + texts_from(&self.source, cur) == whole,
                forall|j: int|
                    0 <= j < out@.len() ==> (#[trigger] out@[j]).0 == layouts@[j] && out@[j].1@
                        == acc[j],
            decreases size - cur.par,
        {
            let p = self.source.at(cur.par, cur.chr);
            let next = PageOffset { par: cur.par + 1, chr: 0 };
            proof {
                assert(p.content@ == text_at(&self.source, cur));
            }
            if !paragraph_is_empty(&self.source, cur.par, cur.chr, &p) {
                let l = layouts[out.len()];
                proof {
                    assert(acc.push(p.content@) + texts_from(&self.source, next) =~= acc + texts_from(
                        &self.source,
                        cur,
                    ));
                    acc = acc.push(p.content@);
                }
                out.push((l, p.content));
            }
            cur = next;
        }
        proof {
            if cur.par >= size {
                assert(acc =~= whole);
            }
        }
        out
    }

    /// The area followed by the bounds of each visible layout.
    pub fn bounds(&self) -> (r: Vec<Rect>)
        ensures
            r@.len() == self.spec_visible().len() + 1,
            r@[0] == self.area,
            forall|j: int|
                0 <= j < self.spec_visible().len() ==> r@[j + 1] == (#[trigger] self.spec_visible()[j]).bounds,
    {
        let layouts = layouts_slice(&self.visible);
        let mut out: Vec<Rect> = Vec::new();
        out.push(self.area);
        let mut i: usize = 0;
        while i < layouts.len()
            invariant
                layouts@ == self.spec_visible(),
                i <= layouts@.len(),
                out@.len() == i + 1,
                out@[0] == self.area,
                forall|j: int| 0 <= j < i ==> out@[j + 1] == (#[trigger] layouts@[j]).bounds,
            decreases layouts@.len() - i,
        {
            out.push(layouts[i].bounds);
            i = i + 1;
        }
        out
    }

    /// The layouts of the current page, in order.
    pub fn visible_layouts(&self) -> (r: &[TextLayout])
        ensures
            r@ == self.spec_visible(),
            r@.len() <= MAX_LINES,
    {
        layouts_slice(&self.visible)
    }

    /// The starts of the pages, one after the other.
    pub fn break_pages(&self) -> (r: PageBreakIterator<'_, T>)
        ensures
            r.paragraphs == self,
            r.index@ == 0,
            r.wf(),
    {
        PageBreakIterator { paragraphs: self, current: None, finished: false, index: Ghost(0) }
    }
}

/// Yields the starts of successive pages; the first is always offset zero,
/// even for an empty source.
pub struct PageBreakIterator<'a, T> {
    pub paragraphs: &'a Paragraphs<T>,
    /// Start of the page yielded last, `None` before the first call.
    pub current: Option<PageOffset>,
    /// The sequence has ended.
    pub finished: bool,
    /// Number of calls so far.
    pub index: Ghost<nat>,
}

impl<'a, T: ParagraphSource> PageBreakIterator<'a, T> {
    pub open spec fn wf(&self) -> bool {
        let k = self.index@;
        &&& k == 0 ==> self.current.is_none() && !self.finished
        &&& k > 0 && !self.finished ==> self.current.is_some() && self.paragraphs.spec_page_break(
            (k - 1) as nat,
        ) == self.current
        &&& self.finished ==> k > 0 && self.paragraphs.spec_page_break((k - 1) as nat).is_none()
    }

    /// The start of the next page, `page_break` of the number of calls
    /// before this one.
    pub fn next(&mut self) -> (r: Option<PageOffset>)
        requires
            old(self).wf(),
        ensures
            r == old(self).paragraphs.spec_page_break(old(self).index@),
            final(self).wf(),
            final(self).index@ == old(self).index@ + 1,
            final(self).paragraphs == old(self).paragraphs,
    {
        let ghost k = self.index@;
        self.index = Ghost(k + 1);
        if self.finished {
            proof {
                lemma_page_break_ended(&self.paragraphs.source, self.paragraphs.area, (k - 1) as nat, k);
            }
            return None;
        }
        match self.current {
            None => {
                self.current = Some(PageOffset::default());
                self.current
            },
            Some(cur) => {
                let next = Paragraphs::<T>::dyn_next(self.paragraphs.area, &self.paragraphs.source, cur);
                match next {
                    Some(n) => {
                        if n == cur {
                            // A page that would start where the previous
                            // one did ends the sequence.
                            self.finished = true;
                            None
                        } else {
                            self.current = next;
                            next
                        }
                    },
                    None => {
                        self.finished = true;
                        None
                    },
                }
            },
        }
    }
}

} // verus!
