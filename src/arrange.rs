//! Stacking the layouts of a page in its area.
use vstd::prelude::*;

use crate::geometry::{clamp_i16, Alignment, LinearPlacement, Rect};
use crate::layout::TextLayout;
use crate::page::MAX_LINES;

verus! {

/// Sum of the heights of the layouts in `s`.
pub open spec fn heights_sum(s: Seq<TextLayout>) -> int
    decreases s.len(),
{
    if s.len() == 0 {
        0
    } else {
        heights_sum(s.drop_last()) + s.last().bounds.spec_height()
    }
}

/// Where a stack of `count` blocks with heights summing to `total` starts in
/// `avail` rows, and the spacing between them: the placement's spacing,
/// scaled down (not below zero) when the stack would not fit.
pub open spec fn stack_start_spacing(p: LinearPlacement, avail: int, count: int, total: int) -> (
    int,
    int,
) {
    let avail = if avail > 0 {
        avail
    } else {
        0
    };
    let gaps = if count > 1 {
        count - 1
    } else {
        0
    };
    let naive = total + gaps * p.spacing;
    let size = if naive > avail {
        avail
    } else {
        naive
    };
    let spacing = if naive > avail {
        if avail - total <= 0 {
            0
        } else {
            (avail - total) / if gaps > 0 {
                gaps
            } else {
                1
            }
        }
    } else {
        p.spacing as int
    };
    let start = match p.align {
        Alignment::Start => 0,
        Alignment::Center => avail / 2 - if size > 0 {
            size / 2
        } else {
            0
        },
        Alignment::End => avail - size,
    };
    (start, spacing)
}

/// The layouts of `s` stacked top to bottom in `area` by `p`: each keeps
/// its height, and starts after the ones before it and the spacing.
pub open spec fn arranged(p: LinearPlacement, area: Rect, s: Seq<TextLayout>) -> Seq<TextLayout> {
    let (start, spacing) = stack_start_spacing(p, area.spec_height(), s.len() as int, heights_sum(s));
    Seq::new(
        s.len(),
        |i: int|
            {
                let y = clamp_i16(area.y0 + start + heights_sum(s.take(i)) + i * spacing);
                TextLayout {
                    bounds: Rect {
                        y0: y as i16,
                        y1: clamp_i16(y + s[i].bounds.spec_height()) as i16,
                        ..s[i].bounds
                    },
                    ..s[i]
                }
            },
    )
}

proof fn lemma_heights_sum_bounds(s: Seq<TextLayout>)
    ensures
        s.len() * i16::MIN <= heights_sum(s) <= s.len() * i16::MAX,
    decreases s.len(),
{
    if s.len() > 0 {
        lemma_heights_sum_bounds(s.drop_last());
    }
}

fn clamp_to_i16(v: i64) -> (r: i16)
    ensures
        r == clamp_i16(v as int),
{
    if v > i16::MAX as i64 {
        i16::MAX
    } else if v < i16::MIN as i64 {
        i16::MIN
    } else {
        v as i16
    }
}

/// Stacks `items` in `area` as `p` says; see `arranged`.
pub fn arrange(p: LinearPlacement, area: Rect, items: &[TextLayout]) -> (r: Vec<TextLayout>)
    requires
        items@.len() <= MAX_LINES,
    ensures
        r@ == arranged(p, area, items@),
{
    let n = items.len();
    let mut total: i64 = 0;
    let mut i: usize = 0;
    while i < n
        invariant
            n == items@.len(),
            n <= MAX_LINES,
            i <= n,
            total == heights_sum(items@.take(i as int)),
            i * i16::MIN <= total <= i * i16::MAX,
        decreases n - i,
    {
        proof {
            assert(items@.take(i + 1).drop_last() =~= items@.take(i as int));
        }
        total = total + items[i].bounds.height() as i64;
        i = i + 1;
    }
    assert(items@.take(n as int) =~= items@);
    let h: i16 = area.height();
    let avail: i64 = if h > 0 {
        h as i64
    } else {
        0
    };
    let gaps: i64 = if n > 1 {
        (n - 1) as i64
    } else {
        0
    };
    assert(-10 * 32768 <= gaps * p.spacing <= 10 * 32768) by (nonlinear_arith)
        requires
            0 <= gaps <= 9,
    ;
    let naive: i64 = total + gaps * p.spacing as i64;
    let size: i64 = if naive > avail {
        avail
    } else {
        naive
    };
    let div: i64 = if gaps > 0 {
        gaps
    } else {
        1
    };
    let spacing: i64 = if naive > avail {
        if avail - total <= 0 {
            0
        } else {
            (avail - total) / div
        }
    } else {
        p.spacing as i64
    };
    proof {
        assert(spacing <= 400000) by (nonlinear_arith)
            requires
                naive > avail ==> avail - total > 0 ==> spacing == (avail - total) / (div as int),
                naive > avail ==> avail - total <= 0 ==> spacing == 0,
                naive <= avail ==> spacing == p.spacing,
                0 <= avail <= i16::MAX,
                total >= 10 * i16::MIN,
                div >= 1,
        ;
        assert(spacing >= i16::MIN) by (nonlinear_arith)
            requires
                naive > avail ==> avail - total > 0 ==> spacing == (avail - total) / (div as int),
                naive > avail ==> avail - total <= 0 ==> spacing == 0,
                naive <= avail ==> spacing == p.spacing,
                div >= 1,
        ;
    }
    let start: i64 = match p.align {
        Alignment::Start => 0,
        Alignment::Center => avail / 2 - if size > 0 {
            size / 2
        } else {
            0
        },
        Alignment::End => avail - size,
    };
    assert(-700000 <= naive <= 700000);
    assert(-1000000 <= start <= 1000000) by (nonlinear_arith)
        requires
            -700000 <= size <= 700000,
            0 <= avail <= 40000,
            start == 0 || start == avail / 2 - (if size > 0 { size / 2 } else { 0 }) || start
                == avail - size,
    ;
    let ghost spec_pair = stack_start_spacing(p, area.spec_height(), n as int, total as int);
    assert(spec_pair == (start as int, spacing as int));
    let mut out: Vec<TextLayout> = Vec::new();
    let mut offset: i64 = 0;
    let mut k: usize = 0;
    while k < n
        invariant
            n == items@.len(),
            n <= MAX_LINES,
            k <= n,
            total == heights_sum(items@),
            stack_start_spacing(p, area.spec_height(), n as int, total as int) == (
                start as int,
                spacing as int,
            ),
            -1000000 <= start <= 1000000,
            i16::MIN <= spacing <= 400000,
            offset == heights_sum(items@.take(k as int)) + k * spacing,
            k * (i16::MIN + i16::MIN) <= offset <= k * (i16::MAX + 400000),
            out@.len() == k,
            forall|j: int| 0 <= j < k ==> (#[trigger] out@[j]) == arranged(p, area, items@)[j],
        decreases n - k,
    {
        let item = items[k];
        let y: i16 = clamp_to_i16(area.y0 as i64 + start + offset);
        let y1: i16 = clamp_to_i16(y as i64 + item.bounds.height() as i64);
        let placed = TextLayout { bounds: Rect { y0: y, y1, ..item.bounds }, ..item };
        assert(placed == arranged(p, area, items@)[k as int]);
        out.push(placed);
        proof {
            assert(items@.take(k + 1).drop_last() =~= items@.take(k as int));
        }
        proof {
            assert((k + 1) * spacing == k * spacing + spacing) by (nonlinear_arith);
        }
        offset = offset + item.bounds.height() as i64 + spacing;
        k = k + 1;
    }
    assert(out@ =~= arranged(p, area, items@));
    out
}

} // verus!
