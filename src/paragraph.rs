//! Paragraph records and the sources that hold them.
use vstd::prelude::*;

use crate::geometry::{Alignment, Rect};
use crate::layout::{TextLayout, TextStyle};
use crate::page::Paragraphs;
use crate::pagination::PageOffset;

verus! {

/// What is left of `s` from character `offset` on; nothing when `offset`
/// lies past its end.
pub open spec fn suffix(s: Seq<char>, offset: int) -> Seq<char> {
    if 0 <= offset <= s.len() {
        s.skip(offset)
    } else {
        Seq::empty()
    }
}

/// Text that a paragraph can hold.
pub trait ParagraphText {
    spec fn text(&self) -> Seq<char>;

    fn as_text(&self) -> (r: &str)
        ensures
            r@ == self.text(),
    ;
}

impl ParagraphText for String {
    open spec fn text(&self) -> Seq<char> {
        self@
    }

    fn as_text(&self) -> (r: &str) {
        self.as_str()
    }
}

impl<'a> ParagraphText for &'a str {
    open spec fn text(&self) -> Seq<char> {
        (*self)@
    }

    fn as_text(&self) -> (r: &str) {
        *self
    }
}

/// A run of text in one style, with its alignment and two layout flags.
#[derive(Clone, Copy)]
pub struct Paragraph<T> {
    /// Paragraph text.
    pub content: T,
    /// Paragraph style.
    pub style: &'static TextStyle,
    /// Paragraph alignment.
    pub align: Alignment,
    /// Place the next paragraph on a new page.
    pub break_after: bool,
    /// Try to keep this and the next paragraph on the same page.
    pub no_break: bool,
}

impl<T> Paragraph<T> {
    /// `self` with `content` in place of its text and the same formatting.
    pub open spec fn spec_with_content<U>(self, content: U) -> Paragraph<U> {
        Paragraph {
            content,
            style: self.style,
            align: self.align,
            break_after: self.break_after,
            no_break: self.no_break,
        }
    }

    pub fn new(style: &'static TextStyle, content: T) -> (r: Self)
        ensures
            r == (Paragraph {
                content,
                style,
                align: Alignment::Start,
                break_after: false,
                no_break: false,
            }),
    {
        Paragraph { content, style, align: Alignment::Start, break_after: false, no_break: false }
    }

    pub fn centered(self) -> (r: Self)
        ensures
            r == (Paragraph { align: Alignment::Center, ..self }),
    {
        Paragraph { align: Alignment::Center, ..self }
    }

    pub fn break_after(self) -> (r: Self)
        ensures
            r == (Paragraph { break_after: true, ..self }),
    {
        Paragraph { break_after: true, ..self }
    }

    pub fn no_break(self) -> (r: Self)
        ensures
            r == (Paragraph { no_break: true, ..self }),
    {
        Paragraph { no_break: true, ..self }
    }

    pub fn content(&self) -> (r: &T)
        ensures
            *r == self.content,
    {
        &self.content
    }

    pub fn update(&mut self, content: T)
        ensures
            *final(self) == (Paragraph { content, ..*old(self) }),
    {
        self.content = content;
    }

    /// The same formatting around other content.
    pub fn with_content<U>(&self, content: U) -> (r: Paragraph<U>)
        ensures
            r == self.spec_with_content(content),
    {
        Paragraph {
            content,
            style: self.style,
            align: self.align,
            break_after: self.break_after,
            no_break: self.no_break,
        }
    }

    /// The layout of this paragraph in `area`, before measuring.
    pub open spec fn spec_layout(self, area: Rect) -> TextLayout {
        TextLayout { bounds: area, style: *self.style, align: self.align }
    }

    pub fn layout(&self, area: Rect) -> (r: TextLayout)
        ensures
            r == self.spec_layout(area),
    {
        TextLayout::new(*self.style).with_align(self.align).with_bounds(area)
    }
}

impl<T: ParagraphText> Paragraph<T> {
    /// The paragraph with its content seen as a sequence of characters.
    pub open spec fn model(self) -> Paragraph<Seq<char>> {
        self.spec_with_content(self.content.text())
    }

    pub fn to_ref(&self) -> (r: Paragraph<&str>)
        ensures
            r.model() == self.model(),
    {
        self.with_content(self.content.as_text())
    }
}

/// Text of `p` from character `offset` on, as an owned paragraph.
pub fn suffix_of<T: ParagraphText>(p: &Paragraph<T>, offset: usize) -> (r: Paragraph<String>)
    ensures
        r.model() == p.model().spec_with_content(suffix(p.model().content, offset as int)),
        p.model().content.len() <= usize::MAX,
{
    let s: &str = p.content.as_text();
    let n: usize = s.unicode_len();
    let text: String = if offset <= n {
        s.substring_char(offset, n).to_owned()
    } else {
        String::new()
    };
    proof {
        if offset <= n {
            assert(text@ =~= suffix(s@, offset as int));
        } else {
            assert(text@ =~= suffix(s@, offset as int));
        }
    }
    p.with_content(text)
}

/// An indexable collection of paragraphs of known size.
///
/// The same index and offset always give the same text: pagination reads a
/// paragraph several times and relies on it.
pub trait ParagraphSource {
    /// Number of paragraphs.
    spec fn spec_size(&self) -> nat;

    /// Paragraph `i` with its whole text.
    spec fn spec_at(&self, i: int) -> Paragraph<Seq<char>>;

    /// Paragraph `i`, its text taken from character `offset` on.
    fn at(&self, i: usize, offset: usize) -> (r: Paragraph<String>)
        requires
            i < self.spec_size(),
        ensures
            r.model() == self.spec_at(i as int).spec_with_content(
                suffix(self.spec_at(i as int).content, offset as int),
            ),
            self.spec_at(i as int).content.len() <= usize::MAX,
    ;

    fn size(&self) -> (r: usize)
        ensures
            r == self.spec_size(),
    ;

    /// A page renderer over this source, at the first page.
    fn into_paragraphs(self) -> (r: Paragraphs<Self>) where Self: Sized
        ensures
            r.source == self,
            r.offset == (PageOffset { par: 0, chr: 0 }),
            r.area == (Rect { x0: 0, y0: 0, x1: 0, y1: 0 }),
            r.spec_visible().len() == 0,
    {
        Paragraphs::new(self)
    }
}

impl<T: ParagraphText> ParagraphSource for Vec<Paragraph<T>> {
    open spec fn spec_size(&self) -> nat {
        self@.len()
    }

    open spec fn spec_at(&self, i: int) -> Paragraph<Seq<char>> {
        self@[i].model()
    }

    fn at(&self, i: usize, offset: usize) -> (r: Paragraph<String>) {
        suffix_of(&self[i], offset)
    }

    fn size(&self) -> (r: usize) {
        self.len()
    }
}

impl<T: ParagraphText, const N: usize> ParagraphSource for [Paragraph<T>; N] {
    open spec fn spec_size(&self) -> nat {
        N as nat
    }

    open spec fn spec_at(&self, i: int) -> Paragraph<Seq<char>> {
        self@[i].model()
    }

    fn at(&self, i: usize, offset: usize) -> (r: Paragraph<String>) {
        suffix_of(&self[i], offset)
    }

    fn size(&self) -> (r: usize) {
        N
    }
}

impl<T: ParagraphText> ParagraphSource for Paragraph<T> {
    open spec fn spec_size(&self) -> nat {
        1
    }

    open spec fn spec_at(&self, i: int) -> Paragraph<Seq<char>> {
        self.model()
    }

    fn at(&self, i: usize, offset: usize) -> (r: Paragraph<String>) {
        suffix_of(self, offset)
    }

    fn size(&self) -> (r: usize) {
        1
    }
}

/// Adding paragraphs to a list, leaving out empty ones.
pub trait VecExt<T>: Sized {
    /// `after` is `before` with `paragraph` added.
    spec fn spec_added(before: Self, paragraph: Paragraph<T>, after: Self) -> bool;

    fn add(&mut self, paragraph: Paragraph<T>) -> (r: &mut Self)
        ensures
            Self::spec_added(*old(self), paragraph, *r),
            *final(self) == *final(r),
    ;
}

impl<T: ParagraphText> VecExt<T> for Vec<Paragraph<T>> {
    open spec fn spec_added(before: Self, paragraph: Paragraph<T>, after: Self) -> bool {
        if paragraph.content.text().len() == 0 {
            after@ == before@
        } else {
            after@ == before@.push(paragraph)
        }
    }

    fn add(&mut self, paragraph: Paragraph<T>) -> (r: &mut Self) {
        if paragraph.content.as_text().is_empty() {
            return self;
        }
        self.push(paragraph);
        self
    }
}

/// A bounded list of up to 32 paragraphs.
pub type ParagraphVecLong = heapless::Vec<Paragraph<&'static str>, 32>;

/// The paragraphs that a list of up to 32 holds, in order.
pub uninterp spec fn long_items(v: heapless::Vec<Paragraph<&'static str>, 32>) -> Seq<
    Paragraph<&'static str>,
>;

/// Relies on heapless::Vec::as_slice: the items in order, never more than
/// the capacity.
#[verifier::external_body]
fn long_slice<'a>(
    v: &'a heapless::Vec<Paragraph<&'static str>, 32>,
) -> (r: &'a [Paragraph<&'static str>])
    ensures
        r@ == long_items(*v),
        r@.len() <= 32,
{
    v.as_slice()
}

/// Relies on heapless::Vec::push: the item is appended when the list holds
/// fewer than its capacity, and the list is left unchanged otherwise.
#[verifier::external_body]
fn long_push(
    v: &mut heapless::Vec<Paragraph<&'static str>, 32>,
    item: Paragraph<&'static str>,
) -> (r: bool)
    ensures
        r == (long_items(*old(v)).len() < 32),
        r ==> long_items(*final(v)) == long_items(*old(v)).push(item),
        !r ==> long_items(*final(v)) == long_items(*old(v)),
{
    v.push(item).is_ok()
}

impl ParagraphSource for heapless::Vec<Paragraph<&'static str>, 32> {
    open spec fn spec_size(&self) -> nat {
        long_items(*self).len()
    }

    open spec fn spec_at(&self, i: int) -> Paragraph<Seq<char>> {
        long_items(*self)[i].model()
    }

    fn at(&self, i: usize, offset: usize) -> (r: Paragraph<String>) {
        let items = long_slice(self);
        suffix_of(&items[i], offset)
    }

    fn size(&self) -> (r: usize) {
        long_slice(self).len()
    }
}

impl VecExt<&'static str> for heapless::Vec<Paragraph<&'static str>, 32> {
    open spec fn spec_added(
        before: Self,
        paragraph: Paragraph<&'static str>,
        after: Self,
    ) -> bool {
        if paragraph.content.text().len() == 0 || long_items(before).len() >= 32 {
            long_items(after) == long_items(before)
        } else {
            long_items(after) == long_items(before).push(paragraph)
        }
    }

    fn add(&mut self, paragraph: Paragraph<&'static str>) -> (r: &mut Self) {
        if paragraph.content.as_text().is_empty() {
            return self;
        }
        // A full list keeps what it has.
        let _ = long_push(self, paragraph);
        self
    }
}

/// A bounded list of up to 8 paragraphs.
pub type ParagraphVecShort = heapless::Vec<Paragraph<&'static str>, 8>;

/// The paragraphs that a list of up to 8 holds, in order.
pub uninterp spec fn short_items(v: heapless::Vec<Paragraph<&'static str>, 8>) -> Seq<
    Paragraph<&'static str>,
>;

/// Relies on heapless::Vec::as_slice: the items in order, never more than
/// the capacity.
#[verifier::external_body]
fn short_slice<'a>(
    v: &'a heapless::Vec<Paragraph<&'static str>, 8>,
) -> (r: &'a [Paragraph<&'static str>])
    ensures
        r@ == short_items(*v),
        r@.len() <= 8,
{
    v.as_slice()
}

/// Relies on heapless::Vec::push: the item is appended when the list holds
/// fewer than its capacity, and the list is left unchanged otherwise.
#[verifier::external_body]
fn short_push(
    v: &mut heapless::Vec<Paragraph<&'static str>, 8>,
    item: Paragraph<&'static str>,
) -> (r: bool)
    ensures
        r == (short_items(*old(v)).len() < 8),
        r ==> short_items(*final(v)) == short_items(*old(v)).push(item),
        !r ==> short_items(*final(v)) == short_items(*old(v)),
{
    v.push(item).is_ok()
}

impl ParagraphSource for heapless::Vec<Paragraph<&'static str>, 8> {
    open spec fn spec_size(&self) -> nat {
        short_items(*self).len()
    }

    open spec fn spec_at(&self, i: int) -> Paragraph<Seq<char>> {
        short_items(*self)[i].model()
    }

    fn at(&self, i: usize, offset: usize) -> (r: Paragraph<String>) {
        let items = short_slice(self);
        suffix_of(&items[i], offset)
    }

    fn size(&self) -> (r: usize) {
        short_slice(self).len()
    }
}

impl VecExt<&'static str> for heapless::Vec<Paragraph<&'static str>, 8> {
    open spec fn spec_added(
        before: Self,
        paragraph: Paragraph<&'static str>,
        after: Self,
    ) -> bool {
        if paragraph.content.text().len() == 0 || short_items(before).len() >= 8 {
            short_items(after) == short_items(before)
        } else {
            short_items(after) == short_items(before).push(paragraph)
        }
    }

    fn add(&mut self, paragraph: Paragraph<&'static str>) -> (r: &mut Self) {
        if paragraph.content.as_text().is_empty() {
            return self;
        }
        // A full list keeps what it has.
        let _ = short_push(self, paragraph);
        self
    }
}

} // verus!
