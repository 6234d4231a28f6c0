use paragraphs::geometry::{Alignment, LinearPlacement, Rect};
use paragraphs::layout::{LayoutFit, TextLayout, TextStyle};
use paragraphs::arrange::arrange;
use paragraphs::page::{Paragraphs, MAX_LINES};
use paragraphs::pagination::PageOffset;
use paragraphs::paragraph::{
    Paragraph, ParagraphSource, ParagraphVecLong, ParagraphVecShort, VecExt,
};

/// Ten rows per line, one column per character.
const STYLE: TextStyle = TextStyle {
    line_height: 10,
    char_width: 1,
    text_color: 0xffff,
    background_color: 0,
};

/// Twenty rows per line.
const TALL: TextStyle = TextStyle {
    line_height: 20,
    char_width: 1,
    text_color: 0x1234,
    background_color: 0x4321,
};

fn text(n: usize, c: char) -> &'static str {
    Box::leak(std::iter::repeat(c).take(n).collect::<String>().into_boxed_str())
}

fn off(par: usize, chr: usize) -> PageOffset {
    PageOffset { par, chr }
}

/// Ten characters per line, 100 rows: ten lines per page.
fn page_area() -> Rect {
    Rect::new(0, 0, 10, 100)
}

fn placed<T: ParagraphSource>(source: T, area: Rect) -> Paragraphs<T> {
    let mut p = Paragraphs::new(source).with_placement(LinearPlacement::vertical());
    p.place(area);
    p
}

fn all_breaks<T: ParagraphSource>(p: &Paragraphs<T>) -> Vec<PageOffset> {
    let mut it = p.break_pages();
    let mut out = Vec::new();
    while let Some(o) = it.next() {
        out.push(o);
        assert!(out.len() < 10_000);
    }
    out
}

#[test]
fn fit_text_exact_heights() {
    let layout = TextLayout::new(STYLE).with_bounds(Rect::new(0, 0, 10, 45));
    assert_eq!(layout.fit_text(""), LayoutFit::Fitting { height: 0 });
    assert_eq!(layout.fit_text("abc"), LayoutFit::Fitting { height: 10 });
    assert_eq!(layout.fit_text(text(10, 'x')), LayoutFit::Fitting { height: 10 });
    assert_eq!(layout.fit_text(text(11, 'x')), LayoutFit::Fitting { height: 20 });
    assert_eq!(layout.fit_text(text(40, 'x')), LayoutFit::Fitting { height: 40 });
    assert_eq!(
        layout.fit_text(text(41, 'x')),
        LayoutFit::OutOfBounds { height: 40, processed_chars: 40 }
    );
    // Characters count, not bytes.
    assert_eq!(layout.fit_text(text(10, 'é')), LayoutFit::Fitting { height: 10 });
    let narrow = TextLayout::new(STYLE).with_bounds(Rect::new(0, 0, 0, 5));
    assert_eq!(
        narrow.fit_text("ab"),
        LayoutFit::OutOfBounds { height: 0, processed_chars: 0 }
    );
}

#[test]
fn rect_split_top_clamps() {
    let r = Rect::new(0, 10, 20, 50);
    assert_eq!(r.height(), 40);
    assert_eq!(r.split_top(15), (Rect::new(0, 10, 20, 25), Rect::new(0, 25, 20, 50)));
    assert_eq!(r.split_top(100), (r, Rect::new(0, 50, 20, 50)));
    assert_eq!(r.split_top(-3), (Rect::new(0, 10, 20, 10), r));
    assert_eq!(r.inset_left(16), Rect::new(16, 10, 20, 50));
}

#[test]
fn pair_fitting_on_fresh_page_is_split_normally() {
    // A is 60 rows and kept with B (50 rows); at the top of a page the pair
    // is never deferred, so A takes 60 rows and B starts in the 40 left.
    let src = vec![
        Paragraph::new(&STYLE, text(60, 'a')).no_break(),
        Paragraph::new(&STYLE, text(50, 'b')),
    ];
    let (next, rest, layout) = off(0, 0).advance(page_area(), &src, 100);
    assert_eq!(next, off(1, 0));
    assert_eq!(rest, Some(Rect::new(0, 60, 10, 100)));
    assert_eq!(layout.unwrap().bounds, Rect::new(0, 0, 10, 60));
    let (next, rest, layout) = next.advance(rest.unwrap(), &src, 100);
    assert_eq!(next, off(1, 40));
    assert_eq!(rest, None);
    assert_eq!(layout.unwrap().bounds, Rect::new(0, 60, 10, 100));

    let mut p = placed(src, page_area());
    assert_eq!(p.visible_layouts().len(), 2);
    assert_eq!(p.page_count(), 2);
    p.change_page(1);
    assert_eq!(p.offset, off(1, 40));
    assert_eq!(p.visible_layouts().len(), 1);
    assert_eq!(p.visible_layouts()[0].bounds, Rect::new(0, 0, 10, 10));
}

#[test]
fn empty_middle_paragraph_single_page() {
    let src = vec![
        Paragraph::new(&STYLE, "first"),
        Paragraph::new(&STYLE, ""),
        Paragraph::new(&STYLE, "third"),
    ];
    let p = placed(src, page_area());
    assert_eq!(p.page_count(), 1);
    assert_eq!(p.visible_layouts().len(), 2);
    let content = p.visible_content();
    assert_eq!(content.len(), 2);
    assert_eq!(content[0].1, "first");
    assert_eq!(content[1].1, "third");
    assert_eq!(content[1].0.bounds, Rect::new(0, 10, 10, 20));
}

#[test]
fn empty_paragraph_takes_no_room() {
    let src = vec![Paragraph::new(&STYLE, ""), Paragraph::new(&STYLE, "x")];
    let area = Rect::new(0, 30, 10, 70);
    let (next, rest, layout) = off(0, 0).advance(area, &src, 100);
    assert_eq!(next, off(1, 0));
    assert_eq!(rest, Some(area));
    assert!(layout.is_none());
}

#[test]
fn page_count_matches_break_iterator() {
    let src = vec![
        Paragraph::new(&STYLE, text(95, 'a')),
        Paragraph::new(&STYLE, text(130, 'b')),
        Paragraph::new(&STYLE, text(7, 'c')),
    ];
    let p = placed(src, page_area());
    let breaks = all_breaks(&p);
    assert_eq!(p.page_count(), breaks.len());
    assert_eq!(breaks, vec![off(0, 0), off(1, 0), off(1, 100)]);
}

#[test]
fn empty_source_has_one_page() {
    let src: Vec<Paragraph<&'static str>> = Vec::new();
    let p = placed(src, page_area());
    assert_eq!(p.page_count(), 1);
    assert_eq!(all_breaks(&p), vec![off(0, 0)]);
    let only_empty = vec![Paragraph::new(&STYLE, ""), Paragraph::new(&STYLE, "")];
    let q = placed(only_empty, page_area());
    assert_eq!(q.page_count(), 1);
    assert_eq!(q.visible_layouts().len(), 0);
}

#[test]
fn change_page_zero_returns_to_start() {
    let src = vec![Paragraph::new(&STYLE, text(250, 'z'))];
    let mut p = placed(src, page_area());
    assert_eq!(p.page_count(), 3);
    p.change_page(2);
    assert_eq!(p.offset, off(0, 200));
    p.change_page(0);
    assert_eq!(p.offset, off(0, 0));
    assert_eq!(p.visible_layouts().len(), 1);
    assert_eq!(p.visible_layouts()[0].bounds, Rect::new(0, 0, 10, 100));
}

#[test]
fn change_page_past_end_shows_empty_first_page() {
    let src = vec![Paragraph::new(&STYLE, "short")];
    let mut p = placed(src, page_area());
    p.change_page(5);
    assert_eq!(p.offset, off(0, 0));
    assert_eq!(p.visible_layouts().len(), 0);
}

/// Replays the placement steps over all pages and joins what they place.
fn replay_text(src: &Vec<Paragraph<&'static str>>, area: Rect) -> String {
    let full = area.height();
    let mut out = String::new();
    let mut page_start = off(0, 0);
    let mut pages = 0;
    while page_start.par < src.len() {
        pages += 1;
        assert!(pages < 1000);
        let mut cur = page_start;
        let mut cur_area = area;
        loop {
            if cur.par >= src.len() {
                page_start = cur;
                break;
            }
            let (next, rest, _) = cur.advance(cur_area, src, full);
            let chars: Vec<char> = src[cur.par].content.chars().collect();
            let end = if next.par == cur.par { next.chr } else { chars.len() };
            if next != cur {
                out.extend(chars[cur.chr.min(chars.len())..end].iter());
            }
            match rest {
                Some(r) => {
                    cur_area = r;
                    cur = next;
                }
                None => {
                    page_start = next;
                    break;
                }
            }
        }
    }
    out
}

#[test]
fn pages_reproduce_all_text() {
    let src = vec![
        Paragraph::new(&STYLE, text(33, 'a')),
        Paragraph::new(&STYLE, ""),
        Paragraph::new(&TALL, text(71, 'b')).no_break(),
        Paragraph::new(&STYLE, text(45, 'c')).break_after(),
        Paragraph::new(&STYLE, text(150, 'd')),
        Paragraph::new(&STYLE, "ééé"),
    ];
    let joined: String = src.iter().map(|p| p.content).collect();
    assert_eq!(replay_text(&src, Rect::new(0, 0, 10, 50)), joined);
    assert_eq!(replay_text(&src, Rect::new(0, 0, 7, 100)), joined);
}

#[test]
fn break_after_ends_page() {
    let src = vec![
        Paragraph::new(&STYLE, "one").break_after(),
        Paragraph::new(&STYLE, "two"),
        Paragraph::new(&STYLE, "three"),
    ];
    let mut p = placed(src, page_area());
    assert_eq!(p.visible_layouts().len(), 1);
    assert_eq!(p.page_count(), 2);
    p.change_page(1);
    assert_eq!(p.offset, off(1, 0));
    assert_eq!(p.visible_layouts().len(), 2);
}

#[test]
fn break_after_on_last_paragraph_adds_no_page() {
    let src = vec![Paragraph::new(&STYLE, "one"), Paragraph::new(&STYLE, "two").break_after()];
    let p = placed(src, page_area());
    assert_eq!(p.page_count(), 1);
}

#[test]
fn no_break_pair_moves_to_next_page() {
    // 50 rows used, 50 left; the pair needs 60 but fits a page: deferred.
    let src = vec![
        Paragraph::new(&STYLE, text(50, 'x')),
        Paragraph::new(&STYLE, text(30, 'k')).no_break(),
        Paragraph::new(&STYLE, text(30, 'v')),
    ];
    let mut p = placed(src, page_area());
    assert_eq!(p.visible_layouts().len(), 1);
    assert_eq!(p.page_count(), 2);
    p.change_page(1);
    assert_eq!(p.offset, off(1, 0));
    assert_eq!(p.visible_layouts().len(), 2);
    assert_eq!(p.visible_layouts()[1].bounds, Rect::new(0, 30, 10, 60));
}

#[test]
fn no_break_pair_too_tall_is_split() {
    // The pair needs 120 rows, more than a page, with 70 left: not deferred.
    let src = vec![
        Paragraph::new(&STYLE, text(30, 'x')),
        Paragraph::new(&STYLE, text(40, 'k')).no_break(),
        Paragraph::new(&STYLE, text(80, 'v')),
    ];
    let p = placed(src, page_area());
    assert_eq!(p.visible_layouts().len(), 3);
    let breaks = all_breaks(&p);
    assert_eq!(breaks, vec![off(0, 0), off(2, 30)]);
}

fn pair(key: usize, val: usize) -> (Paragraph<String>, Paragraph<String>) {
    (
        Paragraph::new(&STYLE, text(key, 'k').to_string()).no_break(),
        Paragraph::new(&STYLE, text(val, 'v').to_string()),
    )
}

#[test]
fn pair_heuristic_boundaries() {
    let (k, v) = pair(30, 30);
    // At the top of a page: never.
    assert!(!PageOffset::should_place_pair_on_next_page(&k, &v, Rect::new(0, 0, 10, 100), 100));
    // Fits the remaining 60 rows exactly.
    assert!(!PageOffset::should_place_pair_on_next_page(&k, &v, Rect::new(0, 40, 10, 100), 100));
    // 50 left: more than two lines, key fits, pair fits a page: defer.
    assert!(PageOffset::should_place_pair_on_next_page(&k, &v, Rect::new(0, 50, 10, 100), 100));
    // Exactly two lines left: defer.
    let (k2, v2) = pair(100, 100);
    assert!(PageOffset::should_place_pair_on_next_page(&k2, &v2, Rect::new(0, 80, 10, 100), 100));
    // 30 left, key 100 rows, pair 200 rows: the key alone exceeds what is
    // left and the value is not empty: defer.
    assert!(PageOffset::should_place_pair_on_next_page(&k2, &v2, Rect::new(0, 70, 10, 100), 100));
    // 50 left, key 40 rows, value 100 rows (more than a page): keep going.
    let (k3, v3) = pair(40, 100);
    assert!(!PageOffset::should_place_pair_on_next_page(&k3, &v3, Rect::new(0, 50, 10, 100), 100));
    // 50 left, key 60 rows, value empty: the pair fits a page: defer.
    let (k4, v4) = pair(60, 0);
    assert!(PageOffset::should_place_pair_on_next_page(&k4, &v4, Rect::new(0, 50, 10, 100), 100));
}

#[test]
fn visible_list_keeps_at_most_max_lines() {
    let src: Vec<Paragraph<&'static str>> =
        (0..12).map(|_| Paragraph::new(&STYLE, "line")).collect();
    let p = placed(src, Rect::new(0, 0, 10, 200));
    assert_eq!(p.visible_layouts().len(), MAX_LINES);
    assert_eq!(p.page_count(), 1);
    assert_eq!(p.bounds().len(), MAX_LINES + 1);
    assert_eq!(p.bounds()[0], Rect::new(0, 0, 10, 200));
}

#[test]
fn arrangement_centers_and_spaces() {
    let l = |y0: i16, y1: i16| TextLayout::new(STYLE).with_bounds(Rect::new(0, y0, 10, y1));
    let items = [l(0, 10), l(10, 30)];
    let area = Rect::new(0, 0, 10, 100);
    let centered = arrange(LinearPlacement::vertical().align_at_center().with_spacing(6), area, &items);
    // 30 rows and one gap of 6: a block of 36 starting at 50 - 18.
    assert_eq!(centered[0].bounds, Rect::new(0, 32, 10, 42));
    assert_eq!(centered[1].bounds, Rect::new(0, 48, 10, 68));
    let end = arrange(LinearPlacement::vertical().align_at_end(), area, &items);
    assert_eq!(end[0].bounds, Rect::new(0, 70, 10, 80));
    assert_eq!(end[1].bounds, Rect::new(0, 80, 10, 100));
    // The spacing shrinks when the stack would not fit.
    let tight = arrange(LinearPlacement::vertical().with_spacing(90), area, &items);
    assert_eq!(tight[1].bounds, Rect::new(0, 80, 10, 100));
}

#[test]
fn default_placement_centers_page() {
    let src = vec![Paragraph::new(&STYLE, "hello")];
    let mut p = Paragraphs::new(src);
    assert_eq!(p.placement, LinearPlacement { align: Alignment::Center, spacing: 0 });
    assert_eq!(p.place(page_area()), page_area());
    assert_eq!(p.visible_layouts()[0].bounds, Rect::new(0, 45, 10, 55));
}

#[test]
fn paragraph_builders_and_update() {
    let mut par = Paragraph::new(&STYLE, "abc");
    assert_eq!(par.align, Alignment::Start);
    assert!(!par.break_after && !par.no_break);
    par = par.centered().break_after().no_break();
    assert_eq!(par.align, Alignment::Center);
    assert!(par.break_after && par.no_break);
    par.update("xyz");
    assert_eq!(*par.content(), "xyz");
    let r = par.to_ref();
    assert_eq!(r.content, "xyz");
    assert!(r.break_after);
    let layout = par.layout(Rect::new(1, 2, 3, 4));
    assert_eq!(layout.bounds, Rect::new(1, 2, 3, 4));
    assert_eq!(layout.align, Alignment::Center);
    assert_eq!(par.size(), 1);
    assert_eq!(par.at(0, 1).content, "yz");
}

#[test]
fn source_at_takes_suffix_by_characters() {
    let src = [Paragraph::new(&STYLE, "héllo"), Paragraph::new(&TALL, "x")];
    assert_eq!(src.size(), 2);
    assert_eq!(src.at(0, 1).content, "éllo");
    assert_eq!(src.at(0, 2).content, "llo");
    assert_eq!(src.at(0, 5).content, "");
    assert_eq!(src.at(0, 9).content, "");
    assert_eq!(src.at(1, 0).style.line_height, 20);
}

#[test]
fn vec_ext_add_skips_empty() {
    let mut v: Vec<Paragraph<&'static str>> = Vec::new();
    v.add(Paragraph::new(&STYLE, "a")).add(Paragraph::new(&STYLE, "")).add(Paragraph::new(&STYLE, "b"));
    assert_eq!(v.len(), 2);
    assert_eq!(v[1].content, "b");
}

#[test]
fn inner_mut_replaces_source() {
    let mut p = Paragraphs::new(vec![Paragraph::new(&STYLE, "a")]).with_spacing(3);
    assert_eq!(p.placement.spacing, 3);
    p.inner_mut().push(Paragraph::new(&STYLE, "b"));
    assert_eq!(p.inner().len(), 2);
}

#[test]
fn pair_threshold_is_twice_the_key_line() {
    // Key lines 10 rows, value lines 20; 25 rows left. Key 20 rows, value
    // 100 rows: nothing asks to defer.
    let k = Paragraph::new(&STYLE, text(20, 'k').to_string()).no_break();
    let v = Paragraph::new(&TALL, text(50, 'v').to_string());
    assert!(!PageOffset::should_place_pair_on_next_page(&k, &v, Rect::new(0, 75, 10, 100), 100));
    // Key lines 20 rows: 35 rows left is at most two key lines: defer.
    let k = Paragraph::new(&TALL, text(10, 'k').to_string()).no_break();
    let v = Paragraph::new(&STYLE, text(200, 'v').to_string());
    assert!(PageOffset::should_place_pair_on_next_page(&k, &v, Rect::new(0, 65, 10, 100), 100));
    assert!(!PageOffset::should_place_pair_on_next_page(&k, &v, Rect::new(0, 59, 10, 100), 100));
}

#[test]
fn cursor_at_end_of_break_after_paragraph_ends_page() {
    let src = vec![Paragraph::new(&STYLE, "abc").break_after(), Paragraph::new(&STYLE, "def")];
    let (next, rest, layout) = off(0, 3).advance(page_area(), &src, 100);
    assert_eq!(next, off(1, 0));
    assert_eq!(rest, None);
    assert!(layout.is_none());
}

#[test]
fn visible_content_first_span_may_be_empty() {
    let src = vec![Paragraph::new(&STYLE, "abc"), Paragraph::new(&STYLE, "def")];
    let mut p = placed(src, page_area());
    p.offset = off(0, 3);
    let content = p.visible_content();
    assert_eq!(content.len(), 2);
    assert_eq!(content[0].1, "");
    assert_eq!(content[1].1, "def");
}

#[test]
fn bounded_lists_drop_what_does_not_fit() {
    let mut short: ParagraphVecShort = heapless::Vec::new();
    for _ in 0..9 {
        short.add(Paragraph::new(&STYLE, "x")).add(Paragraph::new(&STYLE, ""));
    }
    assert_eq!(short.len(), 8);
    assert_eq!(short.size(), 8);
    let mut long: ParagraphVecLong = heapless::Vec::new();
    long.add(Paragraph::new(&STYLE, text(150, 'a'))).add(Paragraph::new(&STYLE, "b"));
    assert_eq!(long.size(), 2);
    assert_eq!(long.at(0, 148).content, "aa");
    let p = placed(long, page_area());
    assert_eq!(p.page_count(), 2);
}

#[test]
fn into_paragraphs_starts_at_first_page() {
    let src = vec![Paragraph::new(&STYLE, "a")];
    let mut p = src.into_paragraphs();
    assert_eq!(p.offset, off(0, 0));
    assert_eq!(p.visible_layouts().len(), 0);
    p.place(page_area());
    assert_eq!(p.visible_layouts().len(), 1);
}
