//! Paragraphs whose content is a value of the host runtime: a string, a byte
//! string shown as lowercase hex digits, nothing, or a value of another type.
use vstd::prelude::*;

use crate::paragraph::{suffix, Paragraph, ParagraphSource, VecExt};

verus! {

/// A value handed over by the host runtime as paragraph content.
pub enum ObjContent {
    /// No value: shown as an empty paragraph.
    Empty,
    Str(String),
    Bytes(Vec<u8>),
    /// A value of a type that has no text form.
    Unsupported,
}

/// Lowercase hex digit of `n` (below 16).
pub open spec fn hex_digit(n: int) -> char {
    if n == 0 {
        '0'
    } else if n == 1 {
        '1'
    } else if n == 2 {
        '2'
    } else if n == 3 {
        '3'
    } else if n == 4 {
        '4'
    } else if n == 5 {
        '5'
    } else if n == 6 {
        '6'
    } else if n == 7 {
        '7'
    } else if n == 8 {
        '8'
    } else if n == 9 {
        '9'
    } else if n == 10 {
        'a'
    } else if n == 11 {
        'b'
    } else if n == 12 {
        'c'
    } else if n == 13 {
        'd'
    } else if n == 14 {
        'e'
    } else {
        'f'
    }
}

/// Two lowercase hex digits per byte, high half first.
pub open spec fn hex_of(b: Seq<u8>) -> Seq<char> {
    Seq::new(
        2 * b.len(),
        |j: int|
            if j % 2 == 0 {
                hex_digit(b[j / 2] as int / 16)
            } else {
                hex_digit(b[j / 2] as int % 16)
            },
    )
}

/// The text shown for a value that has no text form.
pub open spec fn error_text() -> Seq<char> {
    seq!['E', 'R', 'R', 'O', 'R']
}

/// The text that `c` shows.
pub open spec fn obj_text(c: ObjContent) -> Seq<char> {
    match c {
        ObjContent::Empty => Seq::empty(),
        ObjContent::Str(s) => s@,
        ObjContent::Bytes(b) => hex_of(b@),
        ObjContent::Unsupported => error_text(),
    }
}

fn hex_char(n: u8) -> (r: char)
    requires
        n < 16,
    ensures
        r == hex_digit(n as int),
{
    match n {
        0 => '0',
        1 => '1',
        2 => '2',
        3 => '3',
        4 => '4',
        5 => '5',
        6 => '6',
        7 => '7',
        8 => '8',
        9 => '9',
        10 => 'a',
        11 => 'b',
        12 => 'c',
        13 => 'd',
        14 => 'e',
        _ => 'f',
    }
}

/// Relies on String::push: appends one character.
#[verifier::external_body]
fn push_char(s: &mut String, c: char)
    ensures
        final(s)@ == old(s)@.push(c),
{
    s.push(c)
}

/// Relies on Vec::len, and on std's guarantee that a vector never holds
/// more than isize::MAX bytes.
#[verifier::external_body]
fn byte_len(b: &Vec<u8>) -> (r: usize)
    ensures
        r == b@.len(),
        r <= isize::MAX,
{
    b.len()
}

/// Hex digits of `b` from digit `offset` on.
fn hex_from(b: &Vec<u8>, offset: usize) -> (r: String)
    ensures
        r@ == suffix(hex_of(b@), offset as int),
        hex_of(b@).len() <= usize::MAX,
{
    let n = byte_len(b);
    let bin_off = offset / 2;
    let hex_off = offset % 2;
    let mut s = String::new();
    let ghost h = hex_of(b@);
    if bin_off > n || (bin_off == n && hex_off == 1) {
        return s;
    }
    let mut k: usize = bin_off;
    if hex_off == 1 {
        push_char(&mut s, hex_char(b[k] % 16));
        k = k + 1;
        assert(s@ =~= h.subrange(offset as int, 2 * k));
    }
    assert(s@ =~= h.subrange(offset as int, 2 * k));
    while k < n
        invariant
            n == b@.len(),
            n <= isize::MAX,
            bin_off <= k <= n,
            offset <= 2 * k,
            h == hex_of(b@),
            s@ == h.subrange(offset as int, 2 * k),
        decreases n - k,
    {
        let byte = b[k];
        push_char(&mut s, hex_char(byte / 16));
        push_char(&mut s, hex_char(byte % 16));
        assert(s@ =~= h.subrange(offset as int, 2 * (k + 1)));
        k = k + 1;
    }
    assert(s@ =~= suffix(h, offset as int));
    s
}

/// Paragraph `index` of `objslice` with its text from character `offset`
/// on: a string as it is, bytes as hex digits, nothing as the empty text,
/// and `ERROR` for a value of another type.
pub fn objslice_at(objslice: &[Paragraph<ObjContent>], index: usize, offset: usize) -> (r:
    Paragraph<String>)
    requires
        index < objslice@.len(),
    ensures
        r == objslice@[index as int].spec_with_content(r.content),
        r.content@ == suffix(obj_text(objslice@[index as int].content), offset as int),
        obj_text(objslice@[index as int].content).len() <= usize::MAX,
{
    let par = &objslice[index];
    match &par.content {
        ObjContent::Empty => par.with_content(String::new()),
        ObjContent::Str(s) => {
            let n: usize = s.as_str().unicode_len();
            let text: String = if offset <= n {
                s.as_str().substring_char(offset, n).to_owned()
            } else {
                String::new()
            };
            assert(text@ =~= suffix(s@, offset as int));
            par.with_content(text)
        },
        ObjContent::Bytes(b) => par.with_content(hex_from(b, offset)),
        ObjContent::Unsupported => {
            let e: &str = "ERROR";
            proof {
                reveal_strlit("ERROR");
            }
            assert(e@ =~= error_text());
            let text: String = if offset <= 5 {
                e.substring_char(offset, 5).to_owned()
            } else {
                String::new()
            };
            assert(text@ =~= suffix(error_text(), offset as int));
            par.with_content(text)
        },
    }
}

impl ParagraphSource for Vec<Paragraph<ObjContent>> {
    open spec fn spec_size(&self) -> nat {
        self@.len()
    }

    open spec fn spec_at(&self, i: int) -> Paragraph<Seq<char>> {
        self@[i].spec_with_content(obj_text(self@[i].content))
    }

    fn at(&self, i: usize, offset: usize) -> (r: Paragraph<String>) {
        objslice_at(self.as_slice(), i, offset)
    }

    fn size(&self) -> (r: usize) {
        self.len()
    }
}

impl<const N: usize> ParagraphSource for [Paragraph<ObjContent>; N] {
    open spec fn spec_size(&self) -> nat {
        N as nat
    }

    open spec fn spec_at(&self, i: int) -> Paragraph<Seq<char>> {
        self@[i].spec_with_content(obj_text(self@[i].content))
    }

    fn at(&self, i: usize, offset: usize) -> (r: Paragraph<String>) {
        objslice_at(self.as_slice(), i, offset)
    }

    fn size(&self) -> (r: usize) {
        N
    }
}

impl VecExt<ObjContent> for Vec<Paragraph<ObjContent>> {
    open spec fn spec_added(
        before: Self,
        paragraph: Paragraph<ObjContent>,
        after: Self,
    ) -> bool {
        if paragraph.content is Empty {
            after@ == before@
        } else {
            after@ == before@.push(paragraph)
        }
    }

    fn add(&mut self, paragraph: Paragraph<ObjContent>) -> (r: &mut Self) {
        if let ObjContent::Empty = paragraph.content {
            return self;
        }
        self.push(paragraph);
        self
    }
}

} // verus!
