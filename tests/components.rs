use paragraphs::checklist::{Checklist, CHECK_WIDTH};
use paragraphs::fido::{
    shows_account_name, CancelConfirmMsg, FidoAreas, FidoMsg, FidoPage, FidoPaginatedPage,
    PageSwipe, ScrollBar, SwipeDirection,
};
use paragraphs::geometry::{LinearPlacement, Point, Rect};
use paragraphs::layout::TextStyle;
use paragraphs::object::{objslice_at, ObjContent};
use paragraphs::page::Paragraphs;
use paragraphs::pagination::PageOffset;
use paragraphs::paragraph::{Paragraph, ParagraphSource, VecExt};

const STYLE: TextStyle = TextStyle {
    line_height: 10,
    char_width: 1,
    text_color: 0xabcd,
    background_color: 0x0102,
};

const ICON_CURRENT: &[u8] = &[1, 2, 3];
const ICON_DONE: &[u8] = &[4, 5];

fn obj_par(c: ObjContent) -> Paragraph<ObjContent> {
    Paragraph::new(&STYLE, c)
}

#[test]
fn bytes_shown_as_hex_from_offset() {
    let pars = [obj_par(ObjContent::Bytes(vec![0xab, 0x01, 0xf0]))];
    assert_eq!(objslice_at(&pars, 0, 0).content, "ab01f0");
    assert_eq!(objslice_at(&pars, 0, 1).content, "b01f0");
    assert_eq!(objslice_at(&pars, 0, 2).content, "01f0");
    assert_eq!(objslice_at(&pars, 0, 5).content, "0");
    assert_eq!(objslice_at(&pars, 0, 6).content, "");
    assert_eq!(objslice_at(&pars, 0, 7).content, "");
}

#[test]
fn strings_empty_and_unsupported_values() {
    let pars = [
        obj_par(ObjContent::Str("hello".to_string())),
        obj_par(ObjContent::Empty),
        obj_par(ObjContent::Unsupported),
    ];
    assert_eq!(objslice_at(&pars, 0, 2).content, "llo");
    assert_eq!(objslice_at(&pars, 1, 0).content, "");
    assert_eq!(objslice_at(&pars, 2, 0).content, "ERROR");
    assert_eq!(objslice_at(&pars, 2, 3).content, "OR");
}

#[test]
fn object_source_paginates_hex() {
    // Twelve bytes give 24 digits: ten per line, two lines per page.
    let mut src: Vec<Paragraph<ObjContent>> = Vec::new();
    src.add(obj_par(ObjContent::Empty))
        .add(obj_par(ObjContent::Bytes((0u8..12).collect())));
    assert_eq!(src.size(), 1);
    assert_eq!(src.at(0, 20).content, "0a0b");
    let mut p = Paragraphs::new(src).with_placement(LinearPlacement::vertical());
    p.place(Rect::new(0, 0, 10, 20));
    assert_eq!(p.page_count(), 2);
    p.change_page(1);
    assert_eq!(p.offset, PageOffset { par: 0, chr: 20 });
    assert_eq!(p.visible_content()[0].1, "0a0b");
}

fn checklist(current: usize) -> Checklist<Vec<Paragraph<&'static str>>> {
    let src = vec![
        Paragraph::new(&STYLE, "one"),
        Paragraph::new(&STYLE, "two"),
        Paragraph::new(&STYLE, "three"),
    ];
    let paragraphs = Paragraphs::new(src).with_placement(LinearPlacement::vertical());
    let mut c = Checklist::from_paragraphs(ICON_CURRENT, ICON_DONE, current, paragraphs);
    c.place(Rect::new(0, 0, 40, 100));
    c
}

#[test]
fn checklist_marks_done_and_current() {
    let c = checklist(1);
    assert_eq!(c.paragraphs.area, Rect::new(CHECK_WIDTH, 0, 40, 100));
    let marks = c.marks();
    assert_eq!(marks.len(), 2);
    assert_eq!(marks[0].icon, ICON_DONE);
    assert_eq!(marks[0].top_left, Point { x: -2, y: 6 });
    assert_eq!(marks[0].fg, 0xabcd);
    assert_eq!(marks[0].bg, 0x0102);
    assert_eq!(marks[1].icon, ICON_CURRENT);
    assert_eq!(marks[1].top_left, Point { x: 2, y: 13 });
    let b = c.bounds();
    assert_eq!(b.len(), 5);
    assert_eq!(b[0], Rect::new(0, 0, 40, 100));
    assert_eq!(b[1], Rect::new(16, 0, 40, 100));
}

#[test]
fn checklist_past_the_end_marks_all_done() {
    let marks = checklist(7).marks();
    assert_eq!(marks.len(), 3);
    assert!(marks.iter().all(|m| m.icon == ICON_DONE));
    let first = checklist(0).marks();
    assert_eq!(first.len(), 1);
    assert_eq!(first[0].icon, ICON_CURRENT);
}

fn fido(pages: usize) -> FidoPaginatedPage<fn(usize) -> FidoPage<&'static str>, &'static str, ()> {
    fn get(_i: usize) -> FidoPage<&'static str> {
        FidoPage::new("app", "acct")
    }
    FidoPaginatedPage::new(get as fn(usize) -> FidoPage<&'static str>, pages, Some("icon"), ())
}

#[test]
fn fido_swipes_move_between_pages() {
    let mut f = fido(3);
    assert_eq!(f.scrollbar, ScrollBar { page_count: 3, active_page: 0 });
    assert_eq!(f.page_swipe, PageSwipe { allow_left: true, allow_right: false });
    f.on_page_swipe(SwipeDirection::Right);
    assert_eq!(f.active_page(), 0);
    f.on_page_swipe(SwipeDirection::Left);
    f.on_page_swipe(SwipeDirection::Left);
    assert_eq!(f.active_page(), 2);
    assert_eq!(f.page_swipe, PageSwipe { allow_left: false, allow_right: true });
    f.on_page_swipe(SwipeDirection::Left);
    assert_eq!(f.active_page(), 2);
    assert!(f.take_fade());
    assert!(!f.take_fade());
    f.on_page_swipe(SwipeDirection::Up);
    assert_eq!(f.active_page(), 2);
    assert!(matches!(f.on_controls(CancelConfirmMsg::Confirmed), FidoMsg::Confirmed(2)));
    assert!(matches!(f.on_controls(CancelConfirmMsg::Cancelled), FidoMsg::Cancelled));
}

#[test]
fn fido_single_page_allows_no_swipe() {
    let f = fido(1);
    assert_eq!(f.page_swipe, PageSwipe { allow_left: false, allow_right: false });
    assert_eq!(f.text_baselines(), (130, 160));
    assert_eq!(fido(2).text_baselines(), (145, 175));
}

#[test]
fn fido_areas() {
    let mut one = fido(1);
    let a = one.place(Rect::new(0, 0, 240, 240), 60);
    assert_eq!(
        a,
        FidoAreas {
            image: Rect::new(0, 0, 240, 70),
            scrollbar: None,
            content: Rect::new(0, 70, 240, 180),
        }
    );
    assert_eq!(one.content_area, Rect::new(0, 70, 240, 180));
    let mut many = fido(4);
    let b = many.place(Rect::new(0, 0, 240, 240), 60);
    assert_eq!(b.scrollbar, Some(Rect::new(0, 75, 240, 85)));
    assert_eq!(b.content, Rect::new(0, 85, 240, 180));
}

#[test]
fn fido_account_name_shown_only_when_distinct() {
    assert!(shows_account_name(&FidoPage::new("app", "me")));
    assert!(!shows_account_name(&FidoPage::new("app", "")));
    assert!(!shows_account_name(&FidoPage::new("same", "same")));
    assert!(shows_account_name(&FidoPage::new("same", "samé")));
}

#[test]
fn object_array_source() {
    let pars = [
        obj_par(ObjContent::Str("hi".to_string())),
        obj_par(ObjContent::Bytes(vec![0x0f])),
    ];
    assert_eq!(pars.size(), 2);
    assert_eq!(pars.at(1, 0).content, "0f");
    assert_eq!(pars.at(0, 1).content, "i");
}
