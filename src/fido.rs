//! A paginated confirmation page for FIDO credentials: page state, swipes,
//! the areas of its parts, and what its text shows.
use vstd::prelude::*;

use crate::geometry::Rect;
use crate::paragraph::ParagraphText;

verus! {

/// Height of the icon at the top.
pub const ICON_HEIGHT: i16 = 70;

/// Gap above the scrollbar.
pub const SCROLLBAR_INSET_TOP: i16 = 5;

pub const SCROLLBAR_HEIGHT: i16 = 10;

/// Baselines of the application name and of the account name without a
/// scrollbar.
pub const APP_NAME_BASELINE: i16 = 130;

pub const ACCOUNT_NAME_BASELINE: i16 = 160;

/// The same baselines with a scrollbar.
pub const APP_NAME_BASELINE_SCROLLBAR: i16 = 145;

pub const ACCOUNT_NAME_BASELINE_SCROLLBAR: i16 = 175;

pub enum FidoMsg {
    /// Confirmed on the given page.
    Confirmed(usize),
    Cancelled,
}

/// What the cancel and confirm buttons report.
#[derive(Clone, Copy, Debug, PartialEq, Eq, Structural)]
pub enum CancelConfirmMsg {
    Cancelled,
    Confirmed,
}

#[derive(Clone, Copy, Debug, PartialEq, Eq, Structural)]
pub enum SwipeDirection {
    Up,
    Down,
    Left,
    Right,
}

/// One credential: the application and the account.
#[derive(Clone, Copy)]
pub struct FidoPage<T> {
    pub app_name: T,
    pub account_name: T,
}

impl<T> FidoPage<T> {
    pub fn new(app_name: T, account_name: T) -> (r: Self)
        ensures
            r.app_name == app_name,
            r.account_name == account_name,
    {
        FidoPage { app_name, account_name }
    }
}

/// Number of pages and the page shown.
#[derive(Clone, Copy, Debug, PartialEq, Eq, Structural)]
pub struct ScrollBar {
    pub page_count: usize,
    pub active_page: usize,
}

impl ScrollBar {
    pub open spec fn spec_has_next_page(self) -> bool {
        self.active_page + 1 < self.page_count
    }

    pub open spec fn spec_has_previous_page(self) -> bool {
        self.active_page > 0
    }

    pub fn new(page_count: usize, active_page: usize) -> (r: ScrollBar)
        ensures
            r == (ScrollBar { page_count, active_page }),
    {
        ScrollBar { page_count, active_page }
    }

    pub fn has_next_page(&self) -> (r: bool)
        ensures
            r == self.spec_has_next_page(),
    {
        self.page_count > 0 && self.active_page < self.page_count - 1
    }

    pub fn has_previous_page(&self) -> (r: bool)
        ensures
            r == self.spec_has_previous_page(),
    {
        self.active_page > 0
    }
}

/// Which horizontal swipes are taken.
#[derive(Clone, Copy, Debug, PartialEq, Eq, Structural)]
pub struct PageSwipe {
    pub allow_left: bool,
    pub allow_right: bool,
}

/// The parts of the page's area.
#[derive(Clone, Copy, Debug, PartialEq, Eq, Structural)]
pub struct FidoAreas {
    pub image: Rect,
    pub scrollbar: Option<Rect>,
    pub content: Rect,
}

/// `r` with its bottom moved up by `h` rows, not above its top.
pub open spec fn inset_bottom(r: Rect, h: i16) -> Rect {
    Rect {
        y1: if r.y1 - h >= r.y0 {
            (r.y1 - h) as i16
        } else {
            r.y0
        },
        ..r
    }
}

/// `r` with its top moved down by `h` rows, not below its bottom.
pub open spec fn inset_top(r: Rect, h: i16) -> Rect {
    Rect {
        y0: if r.y0 + h <= r.y1 {
            (r.y0 + h) as i16
        } else {
            r.y1
        },
        ..r
    }
}

fn cut_bottom(r: Rect, h: i16) -> (o: Rect)
    requires
        h >= 0,
    ensures
        o == inset_bottom(r, h),
{
    let y: i32 = r.y1 as i32 - h as i32;
    Rect {
        y1: if y >= r.y0 as i32 {
            y as i16
        } else {
            r.y0
        },
        ..r
    }
}

fn cut_top(r: Rect, h: i16) -> (o: Rect)
    requires
        h >= 0,
    ensures
        o == inset_top(r, h),
{
    let y: i32 = r.y0 as i32 + h as i32;
    Rect {
        y0: if y <= r.y1 as i32 {
            y as i16
        } else {
            r.y1
        },
        ..r
    }
}

/// The top `h` rows of `r` (at most all of it) and the rest below.
pub open spec fn split_top_spec(r: Rect, h: i16) -> (Rect, Rect) {
    (
        Rect { y1: (r.y0 + r.split_height(h as int)) as i16, ..r },
        Rect { y0: (r.y0 + r.split_height(h as int)) as i16, ..r },
    )
}

/// Areas of a page of `bounds` whose buttons take `controls_height` rows at
/// the bottom: the icon on top, then the scrollbar when there is more than
/// one page, and the text below.
pub open spec fn areas_of(bounds: Rect, controls_height: i16, page_count: usize) -> FidoAreas {
    let above_controls = inset_bottom(bounds, controls_height);
    let (image, content) = split_top_spec(above_controls, ICON_HEIGHT);
    if page_count > 1 {
        let (bar, text) = split_top_spec(inset_top(content, SCROLLBAR_INSET_TOP), SCROLLBAR_HEIGHT);
        FidoAreas { image, scrollbar: Some(bar), content: text }
    } else {
        FidoAreas { image, scrollbar: None, content }
    }
}

/// Whether the two texts hold the same characters.
fn same_text(a: &str, b: &str) -> (r: bool)
    ensures
        r == (a@ == b@),
{
    let n = a.unicode_len();
    if n != b.unicode_len() {
        return false;
    }
    let mut i: usize = 0;
    while i < n
        invariant
            n == a@.len(),
            n == b@.len(),
            i <= n,
            forall|j: int| 0 <= j < i ==> a@[j] == b@[j],
        decreases n - i,
    {
        if a.get_char(i) != b.get_char(i) {
            return false;
        }
        i = i + 1;
    }
    assert(a@ =~= b@);
    true
}

/// Whether the account name of `page` is shown: it is not empty and differs
/// from the application name.
pub fn shows_account_name<T: ParagraphText>(page: &FidoPage<T>) -> (r: bool)
    ensures
        r == (page.account_name.text().len() > 0 && page.account_name.text()
            != page.app_name.text()),
{
    let account: &str = page.account_name.as_text();
    if account.is_empty() {
        return false;
    }
    !same_text(account, page.app_name.as_text())
}

/// Pages of credentials, one shown at a time, changed by swiping left and
/// right, with buttons to cancel or confirm the page shown.
pub struct FidoPaginatedPage<F, T, U> {
    pub page_swipe: PageSwipe,
    /// Name of the icon to show, if any.
    pub icon_name: Option<T>,
    /// Gives the page with the given index.
    pub get_page: F,
    pub scrollbar: ScrollBar,
    pub content_area: Rect,
    /// The backlight is to be restored at the next paint.
    pub fade: bool,
    pub controls: U,
}

impl<F, T, U> FidoPaginatedPage<F, T, U> {
    pub fn new(get_page: F, page_count: usize, icon_name: Option<T>, controls: U) -> (r: Self)
        ensures
            r.scrollbar == (ScrollBar { page_count, active_page: 0 }),
            r.page_swipe == (PageSwipe { allow_left: 1 < page_count, allow_right: false }),
            r.get_page == get_page,
            r.icon_name == icon_name,
            r.controls == controls,
            r.content_area == Rect::spec_zero(),
            !r.fade,
    {
        // Scrollbar with its page count, and the swipes that it allows.
        let scrollbar = ScrollBar::new(page_count, 0);
        let page_swipe = PageSwipe {
            allow_left: scrollbar.has_next_page(),
            allow_right: scrollbar.has_previous_page(),
        };
        FidoPaginatedPage {
            page_swipe,
            icon_name,
            get_page,
            scrollbar,
            content_area: Rect::zero(),
            fade: false,
            controls,
        }
    }

    /// Moves to the next page on a left swipe and to the previous one on a
    /// right swipe, where there is one; swipes past the ends are refused
    /// from then on. The page is to be painted again, at normal backlight.
    pub fn on_page_swipe(&mut self, swipe: SwipeDirection)
        ensures
            final(self).scrollbar.page_count == old(self).scrollbar.page_count,
            final(self).scrollbar.active_page == if swipe == SwipeDirection::Left
                && old(self).scrollbar.spec_has_next_page() {
                old(self).scrollbar.active_page + 1
            } else if swipe == SwipeDirection::Right && old(self).scrollbar.spec_has_previous_page() {
                old(self).scrollbar.active_page - 1
            } else {
                old(self).scrollbar.active_page as int
            },
            final(self).page_swipe == (PageSwipe {
                allow_left: final(self).scrollbar.spec_has_next_page(),
                allow_right: final(self).scrollbar.spec_has_previous_page(),
            }),
            final(self).fade,
            final(self).get_page == old(self).get_page,
            final(self).icon_name == old(self).icon_name,
            final(self).controls == old(self).controls,
            final(self).content_area == old(self).content_area,
    {
        match swipe {
            SwipeDirection::Left => {
                if self.scrollbar.has_next_page() {
                    self.scrollbar.active_page = self.scrollbar.active_page + 1;
                }
            },
            SwipeDirection::Right => {
                if self.scrollbar.has_previous_page() {
                    self.scrollbar.active_page = self.scrollbar.active_page - 1;
                }
            },
            _ => {},
        }
        // Disable swipes on the boundaries.
        self.page_swipe.allow_right = self.scrollbar.has_previous_page();
        self.page_swipe.allow_left = self.scrollbar.has_next_page();
        self.fade = true;
    }

    pub fn active_page(&self) -> (r: usize)
        ensures
            r == self.scrollbar.active_page,
    {
        self.scrollbar.active_page
    }

    /// Splits `bounds` into its parts, the buttons taking `controls_height`
    /// rows at the bottom, and keeps the text's area.
    pub fn place(&mut self, bounds: Rect, controls_height: i16) -> (r: FidoAreas)
        requires
            controls_height >= 0,
        ensures
            r == areas_of(bounds, controls_height, old(self).scrollbar.page_count),
            final(self).content_area == r.content,
            final(self).scrollbar == old(self).scrollbar,
            final(self).page_swipe == old(self).page_swipe,
            final(self).fade == old(self).fade,
            final(self).get_page == old(self).get_page,
            final(self).icon_name == old(self).icon_name,
            final(self).controls == old(self).controls,
    {
        let above_controls = cut_bottom(bounds, controls_height);
        let (image, content) = above_controls.split_top(ICON_HEIGHT);
        let areas = if self.scrollbar.page_count > 1 {
            let (bar, text) = cut_top(content, SCROLLBAR_INSET_TOP).split_top(SCROLLBAR_HEIGHT);
            FidoAreas { image, scrollbar: Some(bar), content: text }
        } else {
            FidoAreas { image, scrollbar: None, content }
        };
        self.content_area = areas.content;
        areas
    }

    /// The message for what the buttons reported: confirming names the page
    /// shown.
    pub fn on_controls(&self, msg: CancelConfirmMsg) -> (r: FidoMsg)
        ensures
            msg == CancelConfirmMsg::Confirmed ==> r == FidoMsg::Confirmed(self.scrollbar.active_page),
            msg == CancelConfirmMsg::Cancelled ==> r == FidoMsg::Cancelled,
    {
        match msg {
            CancelConfirmMsg::Confirmed => FidoMsg::Confirmed(self.active_page()),
            CancelConfirmMsg::Cancelled => FidoMsg::Cancelled,
        }
    }

    /// Baselines of the application name and of the account name, lower
    /// when a scrollbar is shown.
    pub fn text_baselines(&self) -> (r: (i16, i16))
        ensures
            r == if self.scrollbar.page_count > 1 {
                (APP_NAME_BASELINE_SCROLLBAR, ACCOUNT_NAME_BASELINE_SCROLLBAR)
            } else {
                (APP_NAME_BASELINE, ACCOUNT_NAME_BASELINE)
            },
    {
        if self.scrollbar.page_count > 1 {
            (APP_NAME_BASELINE_SCROLLBAR, ACCOUNT_NAME_BASELINE_SCROLLBAR)
        } else {
            (APP_NAME_BASELINE, ACCOUNT_NAME_BASELINE)
        }
    }

    /// Whether the backlight is to be restored now; it is then cleared.
    pub fn take_fade(&mut self) -> (r: bool)
        ensures
            r == old(self).fade,
            *final(self) == (FidoPaginatedPage { fade: false, ..*old(self) }),
    {
        let r = self.fade;
        self.fade = false;
        r
    }
}

} // verus!
