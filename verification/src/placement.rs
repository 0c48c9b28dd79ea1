//! Pure viewport placement for deliberate navigation.

use std::ops::Range;
use vstd::prelude::*;

verus! {

/// The number of rows a half-open range covers (zero when it is empty or
/// reversed).
pub open spec fn span_len(span: Range<usize>) -> int {
    if span.end > span.start { span.end - span.start } else { 0 }
}

/// `a - b`, or zero when `b` exceeds `a`.
pub open spec fn minus_or_zero(a: int, b: int) -> int {
    if a > b { a - b } else { 0 }
}

/// The first visible row that centers `span` in a body of `body_height`
/// rows, or the start of `priority` when `span` does not fit; never past
/// `max_scroll`.
pub open spec fn spec_center_span(
    span: Range<usize>,
    priority: Range<usize>,
    body_height: usize,
    max_scroll: usize,
) -> int {
    let height: int = if body_height >= 1 { body_height as int } else { 1 };
    let anchor = if span_len(span) <= height {
        minus_or_zero(span.start as int, (height - span_len(span)) / 2)
    } else {
        minus_or_zero(priority.start as int, (height - 1) / 2)
    };
    if anchor <= max_scroll { anchor } else { max_scroll as int }
}

/// Center `span` when it fits, otherwise center the start of `priority`.
pub fn center_span(
    span: Range<usize>,
    priority: Range<usize>,
    body_height: usize,
    max_scroll: usize,
) -> (top: usize)
    ensures
        top == spec_center_span(span, priority, body_height, max_scroll),
{
    let height = if body_height >= 1 { body_height } else { 1 };
    let len = span.end.saturating_sub(span.start);
    let anchor = if len <= height {
        span.start.saturating_sub((height - len) / 2)
    } else {
        priority.start.saturating_sub((height - 1) / 2)
    };
    if anchor <= max_scroll { anchor } else { max_scroll }
}

/// The first visible row that places `row` at `floor((body_height - 1) / 3)`
/// rows from the top, never before the first row nor past `max_scroll`.
pub open spec fn spec_top_third(row: usize, body_height: usize, max_scroll: usize) -> int {
    let anchor = minus_or_zero(row as int, minus_or_zero(body_height as int, 1) / 3);
    if anchor <= max_scroll { anchor } else { max_scroll as int }
}

/// Place `row` at `floor((body_height - 1) / 3)`.
pub fn top_third(row: usize, body_height: usize, max_scroll: usize) -> (top: usize)
    ensures
        top == spec_top_third(row, body_height, max_scroll),
{
    let anchor = row.saturating_sub(body_height.saturating_sub(1) / 3);
    if anchor <= max_scroll { anchor } else { max_scroll }
}

/// A span that fits the body and is not pushed back by `max_scroll` is
/// shown whole: it starts at or below the first visible row and ends at or
/// above the last one, with at most one row more of margin below it than
/// above it.
pub proof fn lemma_fitting_span_is_visible(
    span: Range<usize>,
    priority: Range<usize>,
    body_height: usize,
    max_scroll: usize,
)
    requires
        span.start <= span.end,
        span_len(span) <= body_height,
        spec_center_span(span, priority, body_height, max_scroll) < max_scroll,
    ensures
        ({
            let top = spec_center_span(span, priority, body_height, max_scroll);
            let height: int = if body_height >= 1 { body_height as int } else { 1 };
            &&& top <= span.start
            &&& span.end <= top + height
            &&& (span.start - top) <= (top + height - span.end) <= (span.start - top) + 1 || top == 0
        }),
{
}

/// `top_third` puts `row` on the visible body whenever it is not clamped by
/// `max_scroll`: at the floor of a third of the way down.
pub proof fn lemma_top_third_shows_row(row: usize, body_height: usize, max_scroll: usize)
    requires
        body_height >= 1,
        spec_top_third(row, body_height, max_scroll) < max_scroll,
    ensures
        ({
            let top = spec_top_third(row, body_height, max_scroll);
            &&& top <= row < top + body_height
            &&& row - top <= (body_height - 1) / 3
            &&& (row - top == (body_height - 1) / 3 || top == 0)
        }),
{
}

} // verus!
