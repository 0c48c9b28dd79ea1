//! The read-only panes (the license notices, the agent setup steps): a
//! window of `height` lines onto a text of `lines` lines that the keys
//! and the wheel scroll, never past either end.

use vstd::prelude::*;

use crate::keys::{KeyCode, KeyPress};
use crate::menu::{add_signed_clamped, clamp_add_signed, min, sat_sub};

verus! {

/// Where a read-only pane's window starts.
pub struct Pager {
    scroll: usize,
}

/// The first line of the window after moving `delta` lines from `scroll`,
/// held between the first line and the last full window.
pub open spec fn spec_scrolled(scroll: usize, delta: isize, lines: usize, height: usize) -> usize {
    min(clamp_add_signed(scroll, delta), sat_sub(lines as int, height as int)) as usize
}

/// A page of `height` lines, as a signed count.
pub open spec fn page_of(height: usize) -> isize {
    if height <= isize::MAX { height as isize } else { isize::MAX }
}

/// Half a page, at least one line.
pub open spec fn half_page_of(height: usize) -> isize {
    if page_of(height) / 2 >= 1 { (page_of(height) / 2) as isize } else { 1 }
}

/// The window's first line and whether the pane closes after `event`:
/// Escape closes it; Down/`j` and Up/`k` move a line, PageDown and PageUp
/// a page, Ctrl-d and Ctrl-u half a page; Home/`g` go to the top and
/// End/`G` to the last full window; the others (and any with Ctrl or Alt
/// where none is asked for) change nothing.
pub open spec fn spec_pager_key(scroll: usize, event: KeyPress, lines: usize, height: usize) -> (usize, bool) {
    let plain = !event.ctrl && !event.alt && !event.extra;
    let ctrl_only = event.ctrl && !event.alt && !event.shift && !event.extra;
    let code = event.code;
    if code == KeyCode::Esc {
        (scroll, true)
    } else if plain && (code == KeyCode::Down || code == KeyCode::Char('j')) {
        (spec_scrolled(scroll, 1isize, lines, height), false)
    } else if plain && (code == KeyCode::Up || code == KeyCode::Char('k')) {
        (spec_scrolled(scroll, -1isize, lines, height), false)
    } else if plain && code == KeyCode::PageDown {
        (spec_scrolled(scroll, page_of(height), lines, height), false)
    } else if plain && code == KeyCode::PageUp {
        (spec_scrolled(scroll, (-page_of(height)) as isize, lines, height), false)
    } else if ctrl_only && code == KeyCode::Char('d') {
        (spec_scrolled(scroll, half_page_of(height), lines, height), false)
    } else if ctrl_only && code == KeyCode::Char('u') {
        (spec_scrolled(scroll, (-half_page_of(height)) as isize, lines, height), false)
    } else if plain && (code == KeyCode::Home || code == KeyCode::Char('g')) {
        (0, false)
    } else if plain && (code == KeyCode::End || code == KeyCode::Char('G')) {
        (sat_sub(lines as int, height as int) as usize, false)
    } else {
        (scroll, false)
    }
}

/// The lines a pane's text gets inside an area: one cell of border on
/// each side, and at least one line and one column.
pub open spec fn spec_content_size(area_width: usize, area_height: usize) -> (usize, usize) {
    (
        if area_width >= 3 { (area_width - 2) as usize } else { 1 },
        if area_height >= 3 { (area_height - 2) as usize } else { 1 },
    )
}

/// The columns and lines a pane's text gets inside an area.
pub fn content_size(area_width: usize, area_height: usize) -> (size: (usize, usize))
    ensures
        size == spec_content_size(area_width, area_height),
{
    let width = area_width.saturating_sub(2);
    let height = area_height.saturating_sub(2);
    (if width >= 1 { width } else { 1 }, if height >= 1 { height } else { 1 })
}

impl Pager {
    /// A window at the top.
    pub fn new() -> (pager: Pager)
        ensures
            pager.scroll() == 0,
    {
        Pager { scroll: 0 }
    }

    /// The window's first line.
    pub closed spec fn scroll(&self) -> usize {
        self.scroll
    }

    /// The window's first line.
    pub fn first_line(&self) -> (scroll: usize)
        ensures
            scroll == self.scroll(),
    {
        self.scroll
    }

    /// Moves the window `delta` lines over a text of `lines` lines.
    pub fn scroll_by(&mut self, delta: isize, lines: usize, height: usize)
        ensures
            final(self).scroll() == spec_scrolled(old(self).scroll(), delta, lines, height),
    {
        let moved = add_signed_clamped(self.scroll, delta);
        let last = lines.saturating_sub(height);
        self.scroll = if moved <= last { moved } else { last };
    }

    /// What `event` does to the window over a text of `lines` lines; the
    /// result says whether the pane closes.
    pub fn key(&mut self, event: KeyPress, lines: usize, height: usize) -> (close: bool)
        ensures
            (final(self).scroll(), close) == spec_pager_key(old(self).scroll(), event, lines, height),
    {
        let plain = !event.ctrl && !event.alt && !event.extra;
        let ctrl_only = event.ctrl && !event.alt && !event.shift && !event.extra;
        let code = event.code;
        let page: isize = if height <= isize::MAX as usize { height as isize } else { isize::MAX };
        let half: isize = if page / 2 >= 1 { page / 2 } else { 1 };
        if code == KeyCode::Esc {
            return true;
        }
        if plain && (code == KeyCode::Down || code == KeyCode::Char('j')) {
            self.scroll_by(1, lines, height);
        } else if plain && (code == KeyCode::Up || code == KeyCode::Char('k')) {
            self.scroll_by(-1, lines, height);
        } else if plain && code == KeyCode::PageDown {
            self.scroll_by(page, lines, height);
        } else if plain && code == KeyCode::PageUp {
            self.scroll_by(-page, lines, height);
        } else if ctrl_only && code == KeyCode::Char('d') {
            self.scroll_by(half, lines, height);
        } else if ctrl_only && code == KeyCode::Char('u') {
            self.scroll_by(-half, lines, height);
        } else if plain && (code == KeyCode::Home || code == KeyCode::Char('g')) {
            self.scroll = 0;
        } else if plain && (code == KeyCode::End || code == KeyCode::Char('G')) {
            self.scroll = lines.saturating_sub(height);
        }
        false
    }
}

/// The wheel never moves the window past the last full window, and no
/// key moves a window that starts within the text out of it.
pub proof fn lemma_pager_stays_in_the_text(scroll: usize, event: KeyPress, delta: isize, lines: usize, height: usize)
    ensures
        spec_scrolled(scroll, delta, lines, height) <= sat_sub(lines as int, height as int),
        scroll <= sat_sub(lines as int, height as int)
            ==> spec_pager_key(scroll, event, lines, height).0 <= sat_sub(lines as int, height as int),
{
}

} // verus!
