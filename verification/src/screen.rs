//! Where the viewer's parts stand on the terminal: the menu bar on the
//! top row when shown, the panes below it down to the status line on the
//! bottom row, and, in the main pane, the banner and the file header over
//! the text, whose bottom row the key bar may take.

use vstd::prelude::*;

verus! {

/// What the screen's layout reads of the viewer.
#[derive(Debug, Clone, Copy, PartialEq, Eq, Structural)]
pub struct ScreenFacts {
    /// The terminal's columns.
    pub width: usize,
    /// The terminal's rows.
    pub height: usize,
    pub menu_bar_shown: bool,
    /// A banner (a deleted file's) takes a row over the text.
    pub banner_shown: bool,
    /// A document is open.
    pub has_document: bool,
    /// The text shows a directory.
    pub on_directory: bool,
    pub review_open: bool,
    pub getting_started: bool,
    /// An information page covers the text.
    pub info_shown: bool,
    /// The sidebar's columns.
    pub sidebar_width: usize,
    /// The text's gutter columns.
    pub gutter_width: usize,
}

/// One for a condition that holds.
pub open spec fn one_if(b: bool) -> int {
    if b { 1 } else { 0 }
}

/// `a - b`, or zero when `b` exceeds `a`.
pub open spec fn sat_sub(a: int, b: int) -> int {
    if a > b { a - b } else { 0 }
}

/// At least one.
pub open spec fn at_least_one(x: int) -> int {
    if x >= 1 { x } else { 1 }
}

/// The first row of the panes: the one under the menu bar when it shows.
pub open spec fn spec_pane_top(f: ScreenFacts) -> int {
    one_if(f.menu_bar_shown)
}

/// The panes' rows: the screen less the status line and the menu bar, at
/// least one.
pub open spec fn spec_pane_rows(f: ScreenFacts) -> int {
    at_least_one(sat_sub(f.height as int, 1 + one_if(f.menu_bar_shown)))
}

/// The rows the file header takes: one over a document or a directory,
/// unless the review list or the getting-started page is shown.
pub open spec fn spec_file_chrome_rows(f: ScreenFacts) -> int {
    one_if((f.has_document || f.on_directory) && !f.review_open && !f.getting_started)
}

/// The text's rows: the panes' less the banner and the file header, at
/// least one.
pub open spec fn spec_text_rows(f: ScreenFacts) -> int {
    at_least_one(sat_sub(sat_sub(spec_pane_rows(f), one_if(f.banner_shown)), spec_file_chrome_rows(f)))
}

/// The first row of the text: below the menu bar, the banner and the
/// file header.
pub open spec fn spec_text_top(f: ScreenFacts) -> int {
    spec_pane_top(f) + one_if(f.banner_shown) + spec_file_chrome_rows(f)
}

/// Whether the key bar takes the text's bottom row: over a document, with
/// nothing else in its place.
pub open spec fn spec_text_bar_shown(f: ScreenFacts) -> bool {
    f.has_document && !f.getting_started && !f.on_directory && !f.review_open && !f.info_shown
}

/// The rows the text scrolls in: its rows less the one the key bar takes.
pub open spec fn spec_view_rows(f: ScreenFacts) -> int {
    sat_sub(spec_text_rows(f), one_if(spec_text_bar_shown(f)))
}

/// The text's columns: the screen less the sidebar and the gutter, at
/// least one.
pub open spec fn spec_text_width(f: ScreenFacts) -> int {
    at_least_one(sat_sub(sat_sub(f.width as int, f.sidebar_width as int), f.gutter_width as int))
}

/// The first row of the panes.
pub fn pane_top(f: ScreenFacts) -> (top: usize)
    ensures
        top == spec_pane_top(f),
{
    if f.menu_bar_shown { 1 } else { 0 }
}

/// The panes' rows.
pub fn pane_rows(f: ScreenFacts) -> (rows: usize)
    ensures
        rows == spec_pane_rows(f),
{
    let rows = f.height.saturating_sub(1 + if f.menu_bar_shown { 1 } else { 0 });
    if rows >= 1 { rows } else { 1 }
}

/// The rows the file header takes.
pub fn file_chrome_rows(f: ScreenFacts) -> (rows: usize)
    ensures
        rows == spec_file_chrome_rows(f),
{
    if (f.has_document || f.on_directory) && !f.review_open && !f.getting_started { 1 } else { 0 }
}

/// The text's rows.
pub fn text_rows(f: ScreenFacts) -> (rows: usize)
    ensures
        rows == spec_text_rows(f),
{
    let rows = pane_rows(f).saturating_sub(if f.banner_shown { 1 } else { 0 }).saturating_sub(file_chrome_rows(f));
    if rows >= 1 { rows } else { 1 }
}

/// The first row of the text.
pub fn text_top(f: ScreenFacts) -> (top: usize)
    ensures
        top == spec_text_top(f),
{
    pane_top(f) + if f.banner_shown { 1 } else { 0 } + file_chrome_rows(f)
}

/// Whether the key bar takes the text's bottom row.
pub fn text_bar_shown(f: ScreenFacts) -> (shown: bool)
    ensures
        shown == spec_text_bar_shown(f),
{
    f.has_document && !f.getting_started && !f.on_directory && !f.review_open && !f.info_shown
}

/// The row the key bar takes: the text's bottom row.
pub fn text_bar_row(f: ScreenFacts) -> (row: usize)
    ensures
        row == spec_text_top(f) + spec_text_rows(f) - 1,
{
    proof {
        lemma_text_fills_the_panes(f);
    }
    text_top(f) + (text_rows(f) - 1)
}

/// The rows the text scrolls in.
pub fn view_rows(f: ScreenFacts) -> (rows: usize)
    ensures
        rows == spec_view_rows(f),
{
    text_rows(f).saturating_sub(if text_bar_shown(f) { 1 } else { 0 })
}

/// The text's columns.
pub fn text_width(f: ScreenFacts) -> (width: usize)
    ensures
        width == spec_text_width(f),
{
    let width = f.width.saturating_sub(f.sidebar_width).saturating_sub(f.gutter_width);
    if width >= 1 { width } else { 1 }
}

/// The panes end on the row above the status line, and the text on the
/// panes' last row, whenever the screen has rows enough for the bars and
/// headers; however few it has, the text keeps a row and its bottom row
/// stays on the screen's integers.
pub proof fn lemma_text_fills_the_panes(f: ScreenFacts)
    ensures
        f.height >= 2 + one_if(f.menu_bar_shown) ==> spec_pane_top(f) + spec_pane_rows(f) == f.height - 1,
        spec_pane_rows(f) >= 1 + one_if(f.banner_shown) + spec_file_chrome_rows(f)
            ==> spec_text_top(f) + spec_text_rows(f) == spec_pane_top(f) + spec_pane_rows(f),
        spec_text_rows(f) >= 1,
        spec_text_top(f) + spec_text_rows(f) - 1 <= usize::MAX,
{
}

} // verus!
