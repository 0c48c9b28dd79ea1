//! The compact, searchable, scrollable keymap popup: the binding table
//! grouped into titled sections, filtered by the typed query, wrapped to
//! the columns the terminal has, and scrolled; drawing and mouse
//! hit-testing read the same layout.

use vstd::prelude::*;

use crate::bindings::{binding_table, bindings, join, spell, spelled, table_view, Binding, BindingView, Chord};
use crate::keys::{KeyCode, KeyPress};
use crate::menu::{add_signed_clamped, clamp_add_signed};
use crate::table::BINDING_COUNT;
use crate::text::{
    display_width, lowercase, pop_char, push_char, split_words, str_eq, text_width, to_lowercase, trim,
    trimmed, words_of,
};

verus! {

/// Where a section of the keymap sorts: the movement groups first, the
/// rest after.
pub open spec fn spec_section_rank(group: Seq<char>) -> int {
    if group == "Move"@ {
        0
    } else if group == "Search"@ {
        1
    } else if group == "Select"@ {
        2
    } else if group == "Threads"@ {
        3
    } else if group == "Display"@ {
        4
    } else if group == "Links"@ {
        5
    } else {
        6
    }
}

/// Where a section of the keymap sorts.
pub fn section_rank(group: &str) -> (rank: usize)
    ensures
        rank == spec_section_rank(group@),
{
    if str_eq(group, "Move") {
        0
    } else if str_eq(group, "Search") {
        1
    } else if str_eq(group, "Select") {
        2
    } else if str_eq(group, "Threads") {
        3
    } else if str_eq(group, "Display") {
        4
    } else if str_eq(group, "Links") {
        5
    } else {
        6
    }
}

/// The heading a group is shown under.
pub open spec fn spec_section_title(group: Seq<char>) -> Seq<char> {
    if group == "Select"@ {
        "Select & copy"@
    } else if group == "Display"@ {
        "View & diff"@
    } else {
        group
    }
}

/// The heading a group is shown under.
pub fn section_title(group: &str) -> (title: &str)
    ensures
        title@ == spec_section_title(group@),
{
    if str_eq(group, "Select") {
        "Select & copy"
    } else if str_eq(group, "Display") {
        "View & diff"
    } else {
        group
    }
}

/// `needle` stands in `hay` from index `i` on.
pub open spec fn occurs_at(hay: Seq<char>, needle: Seq<char>, i: int) -> bool {
    &&& 0 <= i
    &&& i + needle.len() <= hay.len()
    &&& hay.subrange(i, i + needle.len()) == needle
}

/// `needle` stands somewhere in `hay`.
pub open spec fn occurs(hay: Seq<char>, needle: Seq<char>) -> bool {
    exists|i: int| occurs_at(hay, needle, i)
}

/// The characters of `text`, in order.
fn chars_of(text: &str) -> (chars: Vec<char>)
    ensures
        chars@ == text@,
{
    let n = text.unicode_len();
    let mut chars: Vec<char> = Vec::new();
    let mut i: usize = 0;
    while i < n
        invariant
            n == text@.len(),
            i <= n,
            chars@ == text@.take(i as int),
        decreases n - i,
    {
        let ch = text.get_char(i);
        chars.push(ch);
        assert(chars@ =~= text@.take(i as int + 1));
        i = i + 1;
    }
    assert(text@.take(n as int) =~= text@);
    chars
}

/// Whether `needle` stands anywhere in `hay`.
pub fn contains_text(hay: &str, needle: &str) -> (found: bool)
    ensures
        found == occurs(hay@, needle@),
{
    let h = chars_of(hay);
    let n = chars_of(needle);
    if n.len() > h.len() {
        proof {
            assert forall|i: int| !occurs_at(hay@, needle@, i) by {}
        }
        return false;
    }
    if n.len() == 0 {
        assert(hay@.subrange(0, 0) =~= needle@);
        assert(occurs_at(hay@, needle@, 0));
        return true;
    }
    let hl = h.len();
    let last = h.len() - n.len();
    let mut i: usize = 0;
    while i <= last
        invariant
            h@ == hay@,
            n@ == needle@,
            last == h@.len() - n@.len(),
            hl == h@.len(),
            n@.len() > 0,
            i <= last + 1,
            forall|j: int| 0 <= j < i ==> !#[trigger] occurs_at(hay@, needle@, j),
        decreases last + 1 - i,
    {
        let mut k: usize = 0;
        let mut same = true;
        while k < n.len()
            invariant
                h@ == hay@,
                n@ == needle@,
                i <= last,
                last == h@.len() - n@.len(),
                hl == h@.len(),
                k <= n@.len(),
                same == forall|m: int| 0 <= m < k ==> h@[i + m] == n@[m],
            decreases n@.len() - k,
        {
            if h[i + k] != n[k] {
                same = false;
            }
            k = k + 1;
        }
        if same {
            assert(hay@.subrange(i as int, i + needle@.len()) =~= needle@);
            assert(occurs_at(hay@, needle@, i as int));
            return true;
        }
        proof {
            if occurs_at(hay@, needle@, i as int) {
                let m = choose|m: int| 0 <= m < n@.len() && h@[i + m] != n@[m];
                assert(hay@.subrange(i as int, i + needle@.len())[m] == h@[i + m]);
            }
        }
        i = i + 1;
    }
    proof {
        assert forall|j: int| !occurs_at(hay@, needle@, j) by {
            if 0 <= j < i {
            }
        }
    }
    false
}

/// Whether `query` is empty or stands in the lowercase form of `text`.
pub open spec fn spec_contains_case_insensitive(text: Seq<char>, query: Seq<char>) -> bool {
    query.len() == 0 || occurs(lowercase(text), query)
}

/// Whether `query` is empty or stands in the lowercase form of `text`.
pub fn contains_case_insensitive(text: &str, query: &str) -> (found: bool)
    ensures
        found == spec_contains_case_insensitive(text@, query@),
{
    if query.is_empty() {
        return true;
    }
    let lower = to_lowercase(text);
    contains_text(lower.as_str(), query)
}

/// Strings by their characters.
pub open spec fn lines_view(lines: Seq<String>) -> Seq<Seq<char>> {
    lines.map_values(|l: String| l@)
}

/// The columns one character takes.
pub open spec fn char_width(ch: char) -> int {
    text_width(seq![ch]) as int
}

/// `x`, held to `usize::MAX`.
pub open spec fn sat(x: int) -> int {
    if x > usize::MAX { usize::MAX as int } else { x }
}

/// `w`, or one when it is zero.
pub open spec fn at_least_one(w: int) -> int {
    if w >= 1 { w } else { 1 }
}

/// Hard wrapping after the characters `chars`: the finished lines, the
/// open line and the columns it takes. A character that would overflow a
/// non-empty line starts the next one.
pub open spec fn hard_fold(chars: Seq<char>, width: int) -> (Seq<Seq<char>>, Seq<char>, int)
    decreases chars.len(),
{
    if chars.len() == 0 {
        (Seq::empty(), Seq::empty(), 0)
    } else {
        let (lines, line, used) = hard_fold(chars.drop_last(), width);
        let ch = chars.last();
        let w = char_width(ch);
        if used > 0 && sat(used + w) > width {
            (lines.push(line), seq![ch], w)
        } else {
            (lines, line.push(ch), sat(used + w))
        }
    }
}

/// The finished lines, with the open line closed when it holds anything
/// or is the only line.
pub open spec fn close_lines(lines: Seq<Seq<char>>, line: Seq<char>) -> Seq<Seq<char>> {
    if line.len() > 0 || lines.len() == 0 { lines.push(line) } else { lines }
}

/// `text` cut into lines of at most `width` columns (at least one),
/// anywhere between characters; a single wider character stands alone.
pub open spec fn spec_wrap_hard(text: Seq<char>, width: int) -> Seq<Seq<char>> {
    let (lines, line, used) = hard_fold(text, at_least_one(width));
    close_lines(lines, line)
}

/// The columns `ch` takes.
fn char_columns(ch: char) -> (w: usize)
    ensures
        w == char_width(ch),
{
    let mut s = String::new();
    push_char(&mut s, ch);
    assert(s@ =~= seq![ch]);
    display_width(s.as_str())
}

/// `text` cut into lines of at most `width` columns, anywhere between
/// characters.
pub fn wrap_hard(text: &str, width: usize) -> (lines: Vec<String>)
    ensures
        lines_view(lines@) == spec_wrap_hard(text@, width as int),
{
    let width = if width >= 1 { width } else { 1 };
    let n = text.unicode_len();
    let mut lines: Vec<String> = Vec::new();
    let mut line = String::new();
    let mut used: usize = 0;
    let mut i: usize = 0;
    while i < n
        invariant
            n == text@.len(),
            i <= n,
            width >= 1,
            hard_fold(text@.take(i as int), width as int) == (lines_view(lines@), line@, used as int),
        decreases n - i,
    {
        let ch = text.get_char(i);
        let w = char_columns(ch);
        assert(text@.take(i as int + 1).drop_last() =~= text@.take(i as int));
        if used > 0 && used.saturating_add(w) > width {
            lines.push(line);
            line = String::new();
            used = 0;
            assert(lines_view(lines@) =~= hard_fold(text@.take(i as int), width as int).0.push(
                hard_fold(text@.take(i as int), width as int).1,
            ));
        }
        push_char(&mut line, ch);
        used = used.saturating_add(w);
        proof {
            let prev = hard_fold(text@.take(i as int), width as int);
            if prev.2 > 0 && sat(prev.2 + char_width(ch)) > width {
                assert(line@ =~= seq![ch]);
            }
        }
        i = i + 1;
    }
    assert(text@.take(n as int) =~= text@);
    if line.unicode_len() > 0 || lines.len() == 0 {
        lines.push(line);
        assert(lines_view(lines@) =~= close_lines(hard_fold(text@, width as int).0, hard_fold(text@, width as int).1));
    }
    lines
}

/// Word wrapping after the words `words`: the finished lines and the open
/// line. A word wider than the line is cut hard; otherwise a word that
/// does not fit after the open line starts the next one.
pub open spec fn words_fold(words: Seq<Seq<char>>, width: int) -> (Seq<Seq<char>>, Seq<char>)
    decreases words.len(),
{
    if words.len() == 0 {
        (Seq::empty(), Seq::empty())
    } else {
        let (lines, line) = words_fold(words.drop_last(), width);
        let word = words.last();
        if text_width(word) > width {
            let flushed = if line.len() > 0 { lines.push(line) } else { lines };
            let parts = spec_wrap_hard(word, width);
            if parts.len() > 0 {
                (flushed + parts.drop_last(), parts.last())
            } else {
                (flushed, Seq::empty())
            }
        } else {
            let candidate = if line.len() == 0 { word } else { line + seq![' '] + word };
            if text_width(candidate) > width {
                (lines.push(line), word)
            } else {
                (lines, candidate)
            }
        }
    }
}

/// `text` wrapped at white space into lines of at most `width` columns
/// (at least one), words wider than that cut hard.
pub open spec fn spec_wrap_words(text: Seq<char>, width: int) -> Seq<Seq<char>> {
    let (lines, line) = words_fold(words_of(text), at_least_one(width));
    close_lines(lines, line)
}

/// `text` wrapped at white space into lines of at most `width` columns.
pub fn wrap_words(text: &str, width: usize) -> (lines: Vec<String>)
    ensures
        lines_view(lines@) == spec_wrap_words(text@, width as int),
{
    let width = if width >= 1 { width } else { 1 };
    let words = split_words(text);
    let ghost ws = words@.map_values(|w: &str| w@);
    let mut lines: Vec<String> = Vec::new();
    let mut line = String::new();
    let mut i: usize = 0;
    while i < words.len()
        invariant
            ws == words@.map_values(|w: &str| w@),
            ws == words_of(text@),
            i <= words@.len(),
            width >= 1,
            words_fold(ws.take(i as int), width as int) == (lines_view(lines@), line@),
        decreases words@.len() - i,
    {
        let word = words[i];
        assert(ws.take(i as int + 1).drop_last() =~= ws.take(i as int));
        assert(ws.take(i as int + 1).last() == word@);
        let ghost before_lines = lines_view(lines@);
        let ghost before_line = line@;
        if display_width(word) > width {
            if !line.as_str().is_empty() {
                lines.push(line);
                line = String::new();
                assert(lines_view(lines@) =~= before_lines.push(before_line));
            }
            let ghost flushed = lines_view(lines@);
            let mut parts = wrap_hard(word, width);
            let ghost all_parts = lines_view(parts@);
            match parts.pop() {
                Some(last) => {
                    lines.append(&mut parts);
                    line = last;
                    assert(lines_view(lines@) =~= flushed + all_parts.drop_last());
                },
                None => {
                    assert(line@ =~= Seq::<char>::empty());
                },
            }
        } else {
            let candidate = if line.as_str().is_empty() {
                word.to_owned()
            } else {
                let mut c = line.clone();
                c.append(" ");
                c.append(word);
                c
            };
            proof {
                reveal_strlit(" ");
                if before_line.len() > 0 {
                    assert(candidate@ =~= before_line + seq![' '] + word@);
                }
            }
            if display_width(candidate.as_str()) > width {
                lines.push(line);
                line = word.to_owned();
                assert(lines_view(lines@) =~= before_lines.push(before_line));
            } else {
                line = candidate;
            }
        }
        i = i + 1;
    }
    assert(ws.take(words@.len() as int) =~= ws);
    if !line.as_str().is_empty() || lines.len() == 0 {
        let ghost before_lines = lines_view(lines@);
        let ghost before_line = line@;
        lines.push(line);
        assert(lines_view(lines@) =~= before_lines.push(before_line));
    }
    lines
}

/// The pieces of `text` from `start` on, cut at each two-space gap that a
/// scan from `i` meets, leftmost first.
pub open spec fn gap_pieces_from(text: Seq<char>, start: int, i: int) -> Seq<Seq<char>>
    decreases text.len() - i,
{
    if i + 1 >= text.len() {
        seq![text.subrange(start, text.len() as int)]
    } else if text[i] == ' ' && text[i + 1] == ' ' {
        seq![text.subrange(start, i)] + gap_pieces_from(text, i + 2, i + 2)
    } else {
        gap_pieces_from(text, start, i + 1)
    }
}

/// The pieces of `text` between its two-space gaps.
pub open spec fn gap_pieces(text: Seq<char>) -> Seq<Seq<char>> {
    gap_pieces_from(text, 0, 0)
}

/// The pieces of `text` between its two-space gaps, in order.
fn split_gaps(text: &str) -> (pieces: Vec<&str>)
    ensures
        pieces@.map_values(|p: &str| p@) == gap_pieces(text@),
{
    let chars = chars_of(text);
    let n = chars.len();
    let mut pieces: Vec<&str> = Vec::new();
    let mut start: usize = 0;
    let mut i: usize = 0;
    while n > 0 && i < n - 1
        invariant
            chars@ == text@,
            n == text@.len(),
            start <= i <= n,
            pieces@.map_values(|p: &str| p@) + gap_pieces_from(text@, start as int, i as int) == gap_pieces(text@),
        decreases n - i,
    {
        if chars[i] == ' ' && chars[i + 1] == ' ' {
            let piece = text.substring_char(start, i);
            let ghost before = pieces@.map_values(|p: &str| p@);
            pieces.push(piece);
            assert(pieces@.map_values(|p: &str| p@) =~= before.push(piece@));
            assert(before + gap_pieces_from(text@, start as int, i as int) =~= before.push(piece@) + gap_pieces_from(text@, i + 2, i + 2));
            i = i + 2;
            start = i;
        } else {
            i = i + 1;
        }
    }
    let piece = text.substring_char(start, n);
    let ghost before = pieces@.map_values(|p: &str| p@);
    pieces.push(piece);
    assert(pieces@.map_values(|p: &str| p@) =~= before.push(piece@));
    assert(before + gap_pieces_from(text@, start as int, i as int) =~= before.push(piece@));
    pieces
}

/// Phrase wrapping after the phrases `phrases`: the finished lines and
/// the open line. A phrase that does not fit after the open line, joined
/// by its two-space gap, starts the next one.
pub open spec fn phrases_fold(phrases: Seq<Seq<char>>, width: int) -> (Seq<Seq<char>>, Seq<char>)
    decreases phrases.len(),
{
    if phrases.len() == 0 {
        (Seq::empty(), Seq::empty())
    } else {
        let (lines, line) = phrases_fold(phrases.drop_last(), width);
        let phrase = phrases.last();
        let candidate = if line.len() == 0 { phrase } else { line + seq![' ', ' '] + phrase };
        if line.len() > 0 && text_width(candidate) > width {
            (lines.push(line), phrase)
        } else {
            (lines, candidate)
        }
    }
}

/// Lists of lines, one after another.
pub open spec fn flatten_lines(groups: Seq<Seq<Seq<char>>>) -> Seq<Seq<char>>
    decreases groups.len(),
{
    if groups.len() == 0 { Seq::empty() } else { flatten_lines(groups.drop_last()) + groups.last() }
}

/// `text` as one line when it fits `width`; else its two-space phrases
/// packed greedily into lines, each then wrapped at white space.
pub open spec fn spec_wrap_phrases(text: Seq<char>, width: int) -> Seq<Seq<char>> {
    if text_width(text) <= width {
        seq![text]
    } else {
        let (lines, line) = phrases_fold(gap_pieces(text), width);
        let all = if line.len() > 0 { lines.push(line) } else { lines };
        flatten_lines(all.map_values(|l: Seq<char>| spec_wrap_words(l, width)))
    }
}

/// `text` wrapped to `width` columns, breaking first at its two-space
/// gaps.
pub fn wrap_phrases(text: &str, width: usize) -> (lines: Vec<String>)
    ensures
        lines_view(lines@) == spec_wrap_phrases(text@, width as int),
{
    if display_width(text) <= width {
        let mut one: Vec<String> = Vec::new();
        one.push(text.to_owned());
        assert(lines_view(one@) =~= seq![text@]);
        return one;
    }
    let phrases = split_gaps(text);
    let ghost ps = phrases@.map_values(|p: &str| p@);
    let mut lines: Vec<String> = Vec::new();
    let mut line = String::new();
    let mut i: usize = 0;
    while i < phrases.len()
        invariant
            ps == phrases@.map_values(|p: &str| p@),
            i <= phrases@.len(),
            phrases_fold(ps.take(i as int), width as int) == (lines_view(lines@), line@),
        decreases phrases@.len() - i,
    {
        let phrase = phrases[i];
        assert(ps.take(i as int + 1).drop_last() =~= ps.take(i as int));
        assert(ps.take(i as int + 1).last() == phrase@);
        let ghost before_lines = lines_view(lines@);
        let ghost before_line = line@;
        let candidate = if line.as_str().is_empty() {
            phrase.to_owned()
        } else {
            let mut c = line.clone();
            c.append("  ");
            c.append(phrase);
            c
        };
        proof {
            reveal_strlit("  ");
            if before_line.len() > 0 {
                assert(candidate@ =~= before_line + seq![' ', ' '] + phrase@);
            }
        }
        if !line.as_str().is_empty() && display_width(candidate.as_str()) > width {
            lines.push(line);
            line = phrase.to_owned();
            assert(lines_view(lines@) =~= before_lines.push(before_line));
        } else {
            line = candidate;
        }
        i = i + 1;
    }
    assert(ps.take(phrases@.len() as int) =~= ps);
    if !line.as_str().is_empty() {
        let ghost before_lines = lines_view(lines@);
        let ghost before_line = line@;
        lines.push(line);
        assert(lines_view(lines@) =~= before_lines.push(before_line));
    }
    let ghost all = lines_view(lines@);
    let mut out: Vec<String> = Vec::new();
    let mut j: usize = 0;
    while j < lines.len()
        invariant
            all == lines_view(lines@),
            j <= lines@.len(),
            lines_view(out@) == flatten_lines(all.take(j as int).map_values(|l: Seq<char>| spec_wrap_words(l, width as int))),
        decreases lines@.len() - j,
    {
        let mut wrapped = wrap_words(lines[j].as_str(), width);
        let ghost before = lines_view(out@);
        let ghost part = lines_view(wrapped@);
        out.append(&mut wrapped);
        proof {
            let m = all.take(j as int + 1).map_values(|l: Seq<char>| spec_wrap_words(l, width as int));
            assert(m.drop_last() =~= all.take(j as int).map_values(|l: Seq<char>| spec_wrap_words(l, width as int)));
            assert(lines_view(out@) =~= before + part);
        }
        j = j + 1;
    }
    assert(all.take(lines@.len() as int) =~= all);
    out
}

/// The widest a key column gets.
pub const MAX_KEY_WIDTH: usize = 14;

/// One displayed line in one help column.
pub enum Cell {
    /// A section's title.
    Heading(String),
    /// One wrapped line of a binding: its row in the table, the keys and
    /// label text on this line, and the key column's width.
    Entry { binding: usize, key: String, label: String, key_width: usize },
    /// A notice in place of the sections.
    Message(String),
}

/// A cell as the contracts see it.
pub enum CellView {
    Heading(Seq<char>),
    Entry { binding: usize, key: Seq<char>, label: Seq<char>, key_width: usize },
    Message(Seq<char>),
}

impl View for Cell {
    type V = CellView;

    open spec fn view(&self) -> CellView {
        match self {
            Cell::Heading(t) => CellView::Heading(t@),
            Cell::Entry { binding, key, label, key_width } => CellView::Entry {
                binding: *binding,
                key: key@,
                label: label@,
                key_width: *key_width,
            },
            Cell::Message(t) => CellView::Message(t@),
        }
    }
}

/// Cells by their views.
pub open spec fn cells_view(cells: Seq<Cell>) -> Seq<CellView> {
    cells.map_values(|c: Cell| c@)
}

/// The table row a cell belongs to: only binding lines have one.
pub open spec fn spec_cell_binding(cell: CellView) -> Option<usize> {
    match cell {
        CellView::Entry { binding, .. } => Some(binding),
        _ => None,
    }
}

impl Cell {
    /// The table row this cell belongs to.
    pub fn binding(&self) -> (row: Option<usize>)
        ensures
            row == spec_cell_binding(self@),
    {
        match self {
            Cell::Entry { binding, .. } => Some(*binding),
            Cell::Heading(_) | Cell::Message(_) => None,
        }
    }

    /// A cell with the same contents.
    pub fn copy(&self) -> (c: Cell)
        ensures
            c@ == self@,
    {
        match self {
            Cell::Heading(t) => Cell::Heading(t.clone()),
            Cell::Entry { binding, key, label, key_width } => Cell::Entry {
                binding: *binding,
                key: key.clone(),
                label: label.clone(),
                key_width: *key_width,
            },
            Cell::Message(t) => Cell::Message(t.clone()),
        }
    }
}

/// `a - b`, or zero when `b` exceeds `a`.
pub open spec fn sat_sub(a: int, b: int) -> int {
    if a > b { a - b } else { 0 }
}

/// The width of a binding's key column: its keys, at most the widest key
/// column, and at most what the column leaves beside four cells of label.
pub open spec fn entry_key_width(keys: Seq<char>, column_width: int) -> int {
    let natural = text_width(keys) as int;
    let capped = if natural <= MAX_KEY_WIDTH { natural } else { MAX_KEY_WIDTH as int };
    let room = at_least_one(sat_sub(column_width, 4));
    if capped <= room { capped } else { room }
}

/// The lines of one binding in a column `column_width` wide: its keys cut
/// hard to the key column, its label wrapped at words to the rest less a
/// two-cell gap, side by side, the shorter padded with empty text.
pub open spec fn spec_entry_lines(binding: usize, keys: Seq<char>, label: Seq<char>, column_width: int) -> Seq<CellView> {
    let key_width = entry_key_width(keys, column_width);
    let label_width = at_least_one(sat_sub(column_width, key_width + 2));
    let key_lines = spec_wrap_hard(keys, key_width);
    let label_lines = spec_wrap_words(label, label_width);
    let n = if key_lines.len() >= label_lines.len() { key_lines.len() } else { label_lines.len() };
    Seq::new(n, |i: int| CellView::Entry {
        binding,
        key: if i < key_lines.len() { key_lines[i] } else { Seq::empty() },
        label: if i < label_lines.len() { label_lines[i] } else { Seq::empty() },
        key_width: key_width as usize,
    })
}

/// The lines of one binding in a column `column_width` wide.
pub fn entry_lines(binding: usize, keys: &str, label: &str, column_width: usize) -> (cells: Vec<Cell>)
    ensures
        cells_view(cells@) == spec_entry_lines(binding, keys@, label@, column_width as int),
{
    let natural = display_width(keys);
    let capped = if natural <= MAX_KEY_WIDTH { natural } else { MAX_KEY_WIDTH };
    let spare = column_width.saturating_sub(4);
    let room = if spare >= 1 { spare } else { 1 };
    let key_width = if capped <= room { capped } else { room };
    let spare = column_width.saturating_sub(key_width + 2);
    let label_width = if spare >= 1 { spare } else { 1 };
    let key_lines = wrap_hard(keys, key_width);
    let label_lines = wrap_words(label, label_width);
    let lines = if key_lines.len() >= label_lines.len() { key_lines.len() } else { label_lines.len() };
    let ghost kl = lines_view(key_lines@);
    let ghost ll = lines_view(label_lines@);
    let ghost want = spec_entry_lines(binding, keys@, label@, column_width as int);
    let mut cells: Vec<Cell> = Vec::new();
    let mut i: usize = 0;
    while i < lines
        invariant
            kl == lines_view(key_lines@),
            ll == lines_view(label_lines@),
            want == spec_entry_lines(binding, keys@, label@, column_width as int),
            kl == spec_wrap_hard(keys@, key_width as int),
            ll == spec_wrap_words(label@, label_width as int),
            key_width == entry_key_width(keys@, column_width as int),
            label_width == at_least_one(sat_sub(column_width as int, key_width + 2)),
            lines == want.len(),
            i <= lines,
            cells_view(cells@) == want.take(i as int),
        decreases lines - i,
    {
        let key = if i < key_lines.len() { key_lines[i].clone() } else { String::new() };
        let text = if i < label_lines.len() { label_lines[i].clone() } else { String::new() };
        assert(key@ == (if (i as int) < kl.len() { kl[i as int] } else { Seq::<char>::empty() }));
        assert(text@ == (if (i as int) < ll.len() { ll[i as int] } else { Seq::<char>::empty() }));
        let cell = Cell::Entry { binding, key, label: text, key_width };
        assert(cell@ == want[i as int]);
        let ghost before = cells_view(cells@);
        cells.push(cell);
        assert(cells_view(cells@) =~= before.push(want[i as int]));
        assert(want.take(i as int + 1) =~= want.take(i as int).push(want[i as int]));
        i = i + 1;
    }
    assert(want.take(lines as int) =~= want);
    cells
}

/// How a binding's key sequences read: each spelled, joined by a slash.
pub open spec fn keys_text(b: BindingView) -> Seq<char> {
    join(b.keys.map_values(|keys: Seq<Chord>| spelled(keys, "Space"@)), " / "@)
}

/// How a binding's key sequences read.
pub fn binding_keys_text(b: &Binding) -> (text: String)
    ensures
        text@ == keys_text(b@),
{
    let ghost parts = b@.keys.map_values(|keys: Seq<Chord>| spelled(keys, "Space"@));
    let mut s = String::new();
    let mut i: usize = 0;
    while i < b.keys.len()
        invariant
            i <= b@.keys.len(),
            b@.keys.len() == b.keys@.len(),
            parts == b@.keys.map_values(|keys: Seq<Chord>| spelled(keys, "Space"@)),
            s@ == join(parts.take(i as int), " / "@),
        decreases b.keys@.len() - i,
    {
        if i > 0 {
            s.append(" / ");
        }
        let spelt = spell(b.keys[i].as_slice());
        s.append(spelt.as_str());
        proof {
            assert(parts.take(i + 1).drop_last() =~= parts.take(i as int));
            assert(b@.keys[i as int] == b.keys@[i as int]@);
            if i == 0 {
                assert(parts.take(1) =~= seq![parts[0]]);
            }
        }
        i = i + 1;
    }
    assert(parts.take(b.keys@.len() as int) =~= parts);
    s
}

/// A query is found by key as well as by label: a binding matches
/// whenever its label or the spelling of any one of its key sequences
/// holds the query regardless of case, so "ctrl-d" finds Ctrl-d.
pub proof fn lemma_keys_are_searched(b: BindingView, query: Seq<char>, k: int)
    requires
        0 <= k < b.keys.len(),
        occurs(lowercase(spelled(b.keys[k], "Space"@)), query),
    ensures
        spec_binding_matches(b, query),
{
    assert(spec_contains_case_insensitive(spelled(b.keys[k], "Space"@), query));
}

/// A label that holds the query, regardless of case, makes its binding
/// match.
pub proof fn lemma_labels_are_searched(b: BindingView, query: Seq<char>)
    requires
        occurs(lowercase(b.label), query),
    ensures
        spec_binding_matches(b, query),
{
}

/// A binding answers the query: its label, or one of its spelled key
/// sequences, holds it regardless of case.
pub open spec fn spec_binding_matches(b: BindingView, query: Seq<char>) -> bool {
    spec_contains_case_insensitive(b.label, query)
        || exists|k: int| 0 <= k < b.keys.len()
            && spec_contains_case_insensitive(spelled(#[trigger] b.keys[k], "Space"@), query)
}

/// Whether a binding answers the query.
pub fn binding_matches(b: &Binding, query: &str) -> (found: bool)
    ensures
        found == spec_binding_matches(b@, query@),
{
    if contains_case_insensitive(b.label, query) {
        return true;
    }
    let mut i: usize = 0;
    while i < b.keys.len()
        invariant
            i <= b@.keys.len(),
            b@.keys.len() == b.keys@.len(),
            forall|k: int| 0 <= k < i ==> !spec_contains_case_insensitive(spelled(#[trigger] b@.keys[k], "Space"@), query@),
        decreases b.keys@.len() - i,
    {
        let spelt = spell(b.keys[i].as_slice());
        assert(b@.keys[i as int] == b.keys@[i as int]@);
        if contains_case_insensitive(spelt.as_str(), query) {
            return true;
        }
        i = i + 1;
    }
    false
}

/// Strings by their characters.
pub open spec fn str_views(strs: Seq<&str>) -> Seq<Seq<char>> {
    strs.map_values(|s: &str| s@)
}

/// The table's groups, each once, in the order of their first row among
/// the first `n`.
pub open spec fn first_groups(tb: Seq<BindingView>, n: int) -> Seq<Seq<char>>
    decreases n,
{
    if n <= 0 {
        Seq::empty()
    } else {
        let gs = first_groups(tb, n - 1);
        let g = tb[n - 1].group;
        if gs.contains(g) { gs } else { gs.push(g) }
    }
}

/// The groups of rank `r`, in order.
pub open spec fn of_rank(gs: Seq<Seq<char>>, r: int) -> Seq<Seq<char>>
    decreases gs.len(),
{
    if gs.len() == 0 {
        Seq::empty()
    } else {
        let rest = of_rank(gs.drop_last(), r);
        if spec_section_rank(gs.last()) == r { rest.push(gs.last()) } else { rest }
    }
}

/// The groups ranked below `r`, rank by rank, each rank in order.
pub open spec fn ranked_below(gs: Seq<Seq<char>>, r: int) -> Seq<Seq<char>>
    decreases r,
{
    if r <= 0 { Seq::empty() } else { ranked_below(gs, r - 1) + of_rank(gs, r - 1) }
}

/// The order the keymap shows its groups: by rank, ties in table order.
pub open spec fn ranked_groups(tb: Seq<BindingView>) -> Seq<Seq<char>> {
    ranked_below(first_groups(tb, tb.len() as int), 7)
}

/// Whether `g` is among `groups`.
fn has_group(groups: &Vec<&str>, g: &str) -> (found: bool)
    ensures
        found == str_views(groups@).contains(g@),
{
    let mut i: usize = 0;
    while i < groups.len()
        invariant
            i <= groups@.len(),
            forall|j: int| 0 <= j < i ==> (#[trigger] str_views(groups@)[j]) != g@,
        decreases groups@.len() - i,
    {
        if str_eq(groups[i], g) {
            assert(str_views(groups@)[i as int] == g@);
            return true;
        }
        i = i + 1;
    }
    false
}

/// The table's groups, each once, in the order of their first row.
fn table_groups(table: &[Binding]) -> (groups: Vec<&'static str>)
    ensures
        str_views(groups@) == first_groups(table_view(table@), table@.len() as int),
{
    let ghost tb = table_view(table@);
    let mut groups: Vec<&'static str> = Vec::new();
    let mut i: usize = 0;
    while i < table.len()
        invariant
            tb == table_view(table@),
            i <= table@.len(),
            str_views(groups@) == first_groups(tb, i as int),
        decreases table@.len() - i,
    {
        let g = table[i].group;
        assert(tb[i as int].group == g@);
        if !has_group(&groups, g) {
            let ghost before = str_views(groups@);
            groups.push(g);
            assert(str_views(groups@) =~= before.push(g@));
        }
        i = i + 1;
    }
    groups
}

/// The groups by rank, each rank in order.
fn rank_groups(groups: &Vec<&'static str>) -> (ranked: Vec<&'static str>)
    ensures
        str_views(ranked@) == ranked_below(str_views(groups@), 7),
{
    let ghost gv = str_views(groups@);
    let mut ranked: Vec<&'static str> = Vec::new();
    let mut r: usize = 0;
    while r < 7
        invariant
            gv == str_views(groups@),
            r <= 7,
            str_views(ranked@) == ranked_below(gv, r as int),
        decreases 7 - r,
    {
        let ghost base = str_views(ranked@);
        let mut i: usize = 0;
        assert(gv.take(0) =~= Seq::<Seq<char>>::empty());
        while i < groups.len()
            invariant
                gv == str_views(groups@),
                r < 7,
                i <= groups@.len(),
                str_views(ranked@) == base + of_rank(gv.take(i as int), r as int),
            decreases groups@.len() - i,
        {
            assert(gv.take(i as int + 1).drop_last() =~= gv.take(i as int));
            assert(gv.take(i as int + 1).last() == groups@[i as int]@);
            if section_rank(groups[i]) == r {
                let ghost before = str_views(ranked@);
                ranked.push(groups[i]);
                assert(str_views(ranked@) =~= before.push(groups@[i as int]@));
            }
            i = i + 1;
        }
        assert(gv.take(groups@.len() as int) =~= gv);
        r = r + 1;
    }
    ranked
}

/// The query names the group: its name or its title holds it, regardless
/// of case.
pub open spec fn group_match(g: Seq<char>, q: Seq<char>) -> bool {
    spec_contains_case_insensitive(g, q) || spec_contains_case_insensitive(spec_section_title(g), q)
}

/// The rows among the first `n` of group `g` that the query keeps: all
/// of them when the query is empty or names the group, else those that
/// answer it.
pub open spec fn shown_in(tb: Seq<BindingView>, g: Seq<char>, q: Seq<char>, n: int) -> Seq<usize>
    decreases n,
{
    if n <= 0 {
        Seq::empty()
    } else {
        let rest = shown_in(tb, g, q, n - 1);
        let b = tb[n - 1];
        if b.group == g && (q.len() == 0 || group_match(g, q) || spec_binding_matches(b, q)) {
            rest.push((n - 1) as usize)
        } else {
            rest
        }
    }
}

proof fn lemma_shown_in_rows(tb: Seq<BindingView>, g: Seq<char>, q: Seq<char>, n: int)
    requires
        0 <= n <= usize::MAX,
    ensures
        forall|k: int| 0 <= k < shown_in(tb, g, q, n).len() ==> #[trigger] shown_in(tb, g, q, n)[k] < n,
    decreases n,
{
    if n > 0 {
        lemma_shown_in_rows(tb, g, q, n - 1);
        let rest = shown_in(tb, g, q, n - 1);
        assert forall|k: int| 0 <= k < shown_in(tb, g, q, n).len() implies #[trigger] shown_in(tb, g, q, n)[k] < n by {
            if k < rest.len() {
                assert(rest[k] < n - 1);
            }
        }
    }
}

/// The rows of group `group` that `query` keeps.
fn group_rows(table: &[Binding], group: &str, query: &str) -> (rows: Vec<usize>)
    ensures
        rows@ == shown_in(table_view(table@), group@, query@, table@.len() as int),
        forall|k: int| 0 <= k < rows@.len() ==> #[trigger] rows@[k] < table@.len(),
{
    let ghost tb = table_view(table@);
    let title = section_title(group);
    let named = contains_case_insensitive(group, query) || contains_case_insensitive(title, query);
    let mut rows: Vec<usize> = Vec::new();
    let mut i: usize = 0;
    while i < table.len()
        invariant
            tb == table_view(table@),
            named == group_match(group@, query@),
            i <= table@.len(),
            rows@ == shown_in(tb, group@, query@, i as int),
        decreases table@.len() - i,
    {
        let b = &table[i];
        assert(tb[i as int] == b@);
        if str_eq(b.group, group) && (query.is_empty() || named || binding_matches(b, query)) {
            rows.push(i);
        }
        i = i + 1;
    }
    proof {
        lemma_shown_in_rows(tb, group@, query@, table@.len() as int);
    }
    rows
}

/// The lines of the rows `rows`, one binding after another.
pub open spec fn entries_cells(tb: Seq<BindingView>, rows: Seq<usize>, column_width: int) -> Seq<CellView>
    decreases rows.len(),
{
    if rows.len() == 0 {
        Seq::empty()
    } else {
        let row = rows.last();
        entries_cells(tb, rows.drop_last(), column_width)
            + spec_entry_lines(row, keys_text(tb[row as int]), tb[row as int].label, column_width)
    }
}

/// A section: its title, then the lines of its rows.
pub open spec fn block_cells(tb: Seq<BindingView>, g: Seq<char>, rows: Seq<usize>, column_width: int) -> Seq<CellView> {
    seq![CellView::Heading(spec_section_title(g))] + entries_cells(tb, rows, column_width)
}

/// A section of group `group` holding `rows`.
fn block(table: &[Binding], group: &str, rows: &Vec<usize>, column_width: usize) -> (cells: Vec<Cell>)
    requires
        forall|k: int| 0 <= k < rows@.len() ==> #[trigger] rows@[k] < table@.len(),
    ensures
        cells_view(cells@) == block_cells(table_view(table@), group@, rows@, column_width as int),
{
    let ghost tb = table_view(table@);
    let mut cells: Vec<Cell> = Vec::new();
    cells.push(Cell::Heading(section_title(group).to_owned()));
    assert(cells_view(cells@) =~= seq![CellView::Heading(spec_section_title(group@))]);
    let mut j: usize = 0;
    while j < rows.len()
        invariant
            tb == table_view(table@),
            forall|k: int| 0 <= k < rows@.len() ==> #[trigger] rows@[k] < table@.len(),
            j <= rows@.len(),
            cells_view(cells@) == seq![CellView::Heading(spec_section_title(group@))]
                + entries_cells(tb, rows@.take(j as int), column_width as int),
        decreases rows@.len() - j,
    {
        let row = rows[j];
        let b = &table[row];
        assert(tb[row as int] == b@);
        let keys = binding_keys_text(b);
        let mut lines = entry_lines(row, keys.as_str(), b.label, column_width);
        let ghost before = cells_view(cells@);
        let ghost part = cells_view(lines@);
        cells.append(&mut lines);
        proof {
            assert(cells_view(cells@) =~= before + part);
            assert(rows@.take(j as int + 1).drop_last() =~= rows@.take(j as int));
        }
        j = j + 1;
    }
    assert(rows@.take(rows@.len() as int) =~= rows@);
    cells
}

/// `cells` appended to `dst`, copied.
fn append_copies(dst: &mut Vec<Cell>, src: &Vec<Cell>)
    ensures
        cells_view(final(dst)@) == cells_view(old(dst)@) + cells_view(src@),
{
    let ghost start = cells_view(dst@);
    let mut i: usize = 0;
    while i < src.len()
        invariant
            i <= src@.len(),
            cells_view(dst@) == start + cells_view(src@).take(i as int),
        decreases src@.len() - i,
    {
        let ghost before = cells_view(dst@);
        dst.push(src[i].copy());
        assert(cells_view(dst@) =~= before.push(src@[i as int]@));
        assert(cells_view(src@).take(i as int + 1) =~= cells_view(src@).take(i as int).push(src@[i as int]@));
        i = i + 1;
    }
    assert(cells_view(src@).take(src@.len() as int) =~= cells_view(src@));
}

/// Sections as the contracts see them: each group's name and cells.
pub open spec fn blocks_view(blocks: Seq<(&str, Vec<Cell>)>) -> Seq<(Seq<char>, Seq<CellView>)> {
    blocks.map_values(|b: (&str, Vec<Cell>)| (b.0@, cells_view(b.1@)))
}

/// The sections of the groups `gs` that keep any row, in order.
pub open spec fn blocks_of(tb: Seq<BindingView>, gs: Seq<Seq<char>>, q: Seq<char>, column_width: int) -> Seq<(Seq<char>, Seq<CellView>)>
    decreases gs.len(),
{
    if gs.len() == 0 {
        Seq::empty()
    } else {
        let rest = blocks_of(tb, gs.drop_last(), q, column_width);
        let g = gs.last();
        let rows = shown_in(tb, g, q, tb.len() as int);
        if rows.len() == 0 { rest } else { rest.push((g, block_cells(tb, g, rows, column_width))) }
    }
}

/// How many rows the groups `gs` keep, held to `usize::MAX`.
pub open spec fn shown_count(tb: Seq<BindingView>, gs: Seq<Seq<char>>, q: Seq<char>) -> int
    decreases gs.len(),
{
    if gs.len() == 0 {
        0
    } else {
        sat(shown_count(tb, gs.drop_last(), q) + shown_in(tb, gs.last(), q, tb.len() as int).len())
    }
}

/// The sections of `groups`, in order, and how many rows they show.
fn make_blocks(table: &[Binding], groups: &Vec<&'static str>, query: &str, column_width: usize) -> (out: (Vec<(&'static str, Vec<Cell>)>, usize))
    ensures
        blocks_view(out.0@) == blocks_of(table_view(table@), str_views(groups@), query@, column_width as int),
        out.1 == shown_count(table_view(table@), str_views(groups@), query@),
{
    let ghost tb = table_view(table@);
    let ghost gv = str_views(groups@);
    let mut blocks: Vec<(&'static str, Vec<Cell>)> = Vec::new();
    let mut shown: usize = 0;
    let mut i: usize = 0;
    while i < groups.len()
        invariant
            tb == table_view(table@),
            gv == str_views(groups@),
            i <= groups@.len(),
            blocks_view(blocks@) == blocks_of(tb, gv.take(i as int), query@, column_width as int),
            shown == shown_count(tb, gv.take(i as int), query@),
        decreases groups@.len() - i,
    {
        let g = groups[i];
        assert(gv.take(i as int + 1).drop_last() =~= gv.take(i as int));
        assert(gv.take(i as int + 1).last() == g@);
        let rows = group_rows(table, g, query);
        shown = shown.saturating_add(rows.len());
        if rows.len() > 0 {
            let cells = block(table, g, &rows, column_width);
            let ghost before = blocks_view(blocks@);
            let ghost cv = cells_view(cells@);
            blocks.push((g, cells));
            assert(blocks_view(blocks@) =~= before.push((g@, cv)));
        }
        i = i + 1;
    }
    assert(gv.take(groups@.len() as int) =~= gv);
    (blocks, shown)
}

/// The cells of the first section named `name`, or none.
pub open spec fn block_named(blocks: Seq<(Seq<char>, Seq<CellView>)>, name: Seq<char>) -> Seq<CellView>
    decreases blocks.len(),
{
    if blocks.len() == 0 {
        Seq::empty()
    } else if blocks[0].0 == name {
        blocks[0].1
    } else {
        block_named(blocks.drop_first(), name)
    }
}

/// The cells of the first section named `name`, copied, or none.
fn named_block(blocks: &Vec<(&'static str, Vec<Cell>)>, name: &str) -> (cells: Vec<Cell>)
    ensures
        cells_view(cells@) == block_named(blocks_view(blocks@), name@),
{
    let ghost bv = blocks_view(blocks@);
    let mut i: usize = 0;
    assert(bv.skip(0) =~= bv);
    while i < blocks.len()
        invariant
            bv == blocks_view(blocks@),
            i <= blocks@.len(),
            block_named(bv, name@) == block_named(bv.skip(i as int), name@),
        decreases blocks@.len() - i,
    {
        assert(bv.skip(i as int)[0] == bv[i as int]);
        if str_eq(blocks[i].0, name) {
            let mut cells: Vec<Cell> = Vec::new();
            append_copies(&mut cells, &blocks[i].1);
            assert(cells_view(cells@) =~= bv[i as int].1);
            return cells;
        }
        assert(bv.skip(i as int).drop_first() =~= bv.skip(i as int + 1));
        i = i + 1;
    }
    assert(bv.skip(blocks@.len() as int) =~= Seq::<(Seq<char>, Seq<CellView>)>::empty());
    Vec::new()
}

/// Groups whose sections have a lane of their own in two columns.
pub open spec fn placed_name(name: Seq<char>) -> bool {
    name == "Move"@ || name == "Search"@ || name == "Select"@ || name == "Threads"@ || name == "Display"@
}

/// Whether a group's section has a lane of its own in two columns.
fn is_placed(name: &str) -> (placed: bool)
    ensures
        placed == placed_name(name@),
{
    str_eq(name, "Move") || str_eq(name, "Search") || str_eq(name, "Select") || str_eq(name, "Threads")
        || str_eq(name, "Display")
}

/// The sections without a lane of their own, in order.
pub open spec fn unplaced(blocks: Seq<(Seq<char>, Seq<CellView>)>) -> Seq<(Seq<char>, Seq<CellView>)>
    decreases blocks.len(),
{
    if blocks.len() == 0 {
        Seq::empty()
    } else {
        let rest = unplaced(blocks.drop_last());
        if placed_name(blocks.last().0) { rest } else { rest.push(blocks.last()) }
    }
}

/// The two lanes after the sections `rest` each join the shorter one,
/// the first on a tie.
pub open spec fn balanced(lanes: (Seq<CellView>, Seq<CellView>), rest: Seq<(Seq<char>, Seq<CellView>)>) -> (Seq<CellView>, Seq<CellView>)
    decreases rest.len(),
{
    if rest.len() == 0 {
        lanes
    } else {
        let (a, b) = balanced(lanes, rest.drop_last());
        let cells = rest.last().1;
        if b.len() < a.len() { (a, b + cells) } else { (a + cells, b) }
    }
}

/// All sections' cells, one after another.
pub open spec fn all_cells(blocks: Seq<(Seq<char>, Seq<CellView>)>) -> Seq<CellView>
    decreases blocks.len(),
{
    if blocks.len() == 0 { Seq::empty() } else { all_cells(blocks.drop_last()) + blocks.last().1 }
}

/// What the keymap says when nothing answers the query.
pub open spec fn no_match_text(query: Seq<char>) -> Seq<char> {
    "No keys match “"@ + query + "”"@
}

/// The keymap's lanes for the query `query` in columns `column_width`
/// wide, and how many rows they show: the sections in rank order, each
/// its title and the lines of the rows the query keeps; one lane for one
/// column; for two, movement, search and selection on the left, threads
/// and display on the right, every other section on the shorter side.
pub open spec fn spec_content(tb: Seq<BindingView>, query: Seq<char>, column_width: int, columns: int) -> (Seq<Seq<CellView>>, int) {
    let q = lowercase(trimmed(query));
    let gs = ranked_groups(tb);
    let blocks = blocks_of(tb, gs, q, column_width);
    let shown = shown_count(tb, gs, q);
    if blocks.len() == 0 {
        (seq![seq![CellView::Message(no_match_text(query))]], shown)
    } else if columns == 1 {
        (seq![all_cells(blocks)], shown)
    } else {
        let first = block_named(blocks, "Move"@) + block_named(blocks, "Search"@) + block_named(blocks, "Select"@);
        let second = block_named(blocks, "Threads"@) + block_named(blocks, "Display"@);
        let (a, b) = balanced((first, second), unplaced(blocks));
        (seq![a, b], shown)
    }
}

/// Lanes by their cells' views.
pub open spec fn lanes_view(lanes: Seq<Vec<Cell>>) -> Seq<Seq<CellView>> {
    lanes.map_values(|l: Vec<Cell>| cells_view(l@))
}

/// The two lanes: the placed sections first, then every other section on
/// the shorter side.
fn two_lanes(blocks: &Vec<(&'static str, Vec<Cell>)>) -> (lanes: (Vec<Cell>, Vec<Cell>))
    ensures
        ({
            let bv = blocks_view(blocks@);
            let first = block_named(bv, "Move"@) + block_named(bv, "Search"@) + block_named(bv, "Select"@);
            let second = block_named(bv, "Threads"@) + block_named(bv, "Display"@);
            (cells_view(lanes.0@), cells_view(lanes.1@)) == balanced((first, second), unplaced(bv))
        }),
{
    let ghost bv = blocks_view(blocks@);
    let mut a: Vec<Cell> = Vec::new();
    let mut part = named_block(blocks, "Move");
    a.append(&mut part);
    let mut part = named_block(blocks, "Search");
    a.append(&mut part);
    let mut part = named_block(blocks, "Select");
    a.append(&mut part);
    let mut b: Vec<Cell> = Vec::new();
    let mut part = named_block(blocks, "Threads");
    b.append(&mut part);
    let mut part = named_block(blocks, "Display");
    b.append(&mut part);
    let ghost first = block_named(bv, "Move"@) + block_named(bv, "Search"@) + block_named(bv, "Select"@);
    let ghost second = block_named(bv, "Threads"@) + block_named(bv, "Display"@);
    assert(cells_view(a@) =~= first);
    assert(cells_view(b@) =~= second);
    let mut i: usize = 0;
    assert(bv.take(0) =~= Seq::<(Seq<char>, Seq<CellView>)>::empty());
    while i < blocks.len()
        invariant
            bv == blocks_view(blocks@),
            i <= blocks@.len(),
            (cells_view(a@), cells_view(b@)) == balanced((first, second), unplaced(bv.take(i as int))),
        decreases blocks@.len() - i,
    {
        assert(bv.take(i as int + 1).drop_last() =~= bv.take(i as int));
        assert(bv.take(i as int + 1).last() == bv[i as int]);
        assert(bv[i as int] == (blocks@[i as int].0@, cells_view(blocks@[i as int].1@)));
        assert(a@.len() == cells_view(a@).len() && b@.len() == cells_view(b@).len());
        let ghost u = unplaced(bv.take(i as int));
        if !is_placed(blocks[i].0) {
            assert(unplaced(bv.take(i as int + 1)) == u.push(bv[i as int]));
            assert(u.push(bv[i as int]).drop_last() =~= u);
            if b.len() < a.len() {
                append_copies(&mut b, &blocks[i].1);
            } else {
                append_copies(&mut a, &blocks[i].1);
            }
        } else {
            assert(unplaced(bv.take(i as int + 1)) == u);
        }
        i = i + 1;
    }
    assert(bv.take(blocks@.len() as int) =~= bv);
    (a, b)
}

/// The keymap's lanes for the help state in columns `column_width` wide,
/// and how many rows they show.
pub fn content(help: &Help, column_width: usize, columns: usize) -> (out: (Vec<Vec<Cell>>, usize))
    ensures
        (lanes_view(out.0@), out.1 as int) == spec_content(binding_table(), help@.query, column_width as int, columns as int),
{
    let table = bindings();
    let ghost tb = table_view(table@);
    let trimmed_query = trim(help.query.as_str());
    let query = to_lowercase(trimmed_query);
    let groups = table_groups(table.as_slice());
    let ranked = rank_groups(&groups);
    let (blocks, shown) = make_blocks(table.as_slice(), &ranked, query.as_str(), column_width);
    let ghost bv = blocks_view(blocks@);
    let mut lanes: Vec<Vec<Cell>> = Vec::new();
    if blocks.len() == 0 {
        let mut text = String::new();
        text.append("No keys match “");
        text.append(help.query.as_str());
        text.append("”");
        assert(text@ == no_match_text(help@.query));
        let mut lane: Vec<Cell> = Vec::new();
        lane.push(Cell::Message(text));
        assert(cells_view(lane@) =~= seq![CellView::Message(no_match_text(help@.query))]);
        let ghost lv = cells_view(lane@);
        lanes.push(lane);
        assert(lanes_view(lanes@) =~= seq![lv]);
        return (lanes, shown);
    }
    if columns == 1 {
        let mut lane: Vec<Cell> = Vec::new();
        let mut i: usize = 0;
        assert(bv.take(0) =~= Seq::<(Seq<char>, Seq<CellView>)>::empty());
        while i < blocks.len()
            invariant
                bv == blocks_view(blocks@),
                i <= blocks@.len(),
                cells_view(lane@) == all_cells(bv.take(i as int)),
            decreases blocks@.len() - i,
        {
            assert(bv.take(i as int + 1).drop_last() =~= bv.take(i as int));
            append_copies(&mut lane, &blocks[i].1);
            i = i + 1;
        }
        assert(bv.take(blocks@.len() as int) =~= bv);
        lanes.push(lane);
        assert(lanes_view(lanes@) =~= seq![all_cells(bv)]);
        return (lanes, shown);
    }
    let (a, b) = two_lanes(&blocks);
    let ghost av = cells_view(a@);
    let ghost bw = cells_view(b@);
    lanes.push(a);
    lanes.push(b);
    assert(lanes_view(lanes@) =~= seq![av, bw]);
    (lanes, shown)
}

/// The keymap's transient state: the typed query, whether it is being
/// typed, and how far the sections are scrolled.
pub struct Help {
    query: String,
    filtering: bool,
    scroll: usize,
}

/// The keymap's state as the contracts see it.
pub struct HelpView {
    pub query: Seq<char>,
    pub filtering: bool,
    pub scroll: int,
}

impl View for Help {
    type V = HelpView;

    closed spec fn view(&self) -> HelpView {
        HelpView { query: self.query@, filtering: self.filtering, scroll: self.scroll as int }
    }
}

impl Default for Help {
    fn default() -> (help: Self)
        ensures
            help@ == (HelpView { query: Seq::empty(), filtering: false, scroll: 0 }),
    {
        Help { query: String::new(), filtering: false, scroll: 0 }
    }
}

impl Help {
    /// The typed query.
    pub fn query(&self) -> (query: &str)
        ensures
            query@ == self@.query,
    {
        self.query.as_str()
    }

    /// Whether the query is being typed.
    pub fn filtering(&self) -> (filtering: bool)
        ensures
            filtering == self@.filtering,
    {
        self.filtering
    }
}

/// The keymap's hint line for the state: how to type, or how to filter,
/// scroll and leave.
pub open spec fn footer_text(help: HelpView) -> Seq<char> {
    if help.filtering {
        "type to filter  Backspace erase  Enter apply  Esc clear"@
    } else if help.query.len() == 0 {
        "/ filter  Up/Down scroll  PgUp/PgDn page  Esc close"@
    } else {
        "/ edit filter  Up/Down scroll  PgUp/PgDn page  Esc clear"@
    }
}

/// The hint line wrapped to `width` columns.
pub fn footer_lines(help: &Help, width: usize) -> (lines: Vec<String>)
    ensures
        lines_view(lines@) == spec_wrap_phrases(footer_text(help@), width as int),
{
    let text = if help.filtering {
        "type to filter  Backspace erase  Enter apply  Esc clear"
    } else if help.query.as_str().is_empty() {
        "/ filter  Up/Down scroll  PgUp/PgDn page  Esc close"
    } else {
        "/ edit filter  Up/Down scroll  PgUp/PgDn page  Esc clear"
    };
    wrap_phrases(text, width)
}

/// A visible row, with one cell per help column.
pub struct Row {
    pub cells: Vec<Option<Cell>>,
}

/// An optional cell by its view.
pub open spec fn opt_cell_view(c: Option<Cell>) -> Option<CellView> {
    match c {
        Some(cell) => Some(cell@),
        None => None,
    }
}

/// A row by its cells' views.
pub open spec fn row_view(r: Row) -> Seq<Option<CellView>> {
    r.cells@.map_values(|c: Option<Cell>| opt_cell_view(c))
}

/// Rows by their views.
pub open spec fn rows_view(rows: Seq<Row>) -> Seq<Seq<Option<CellView>>> {
    rows.map_values(|r: Row| row_view(r))
}

/// Geometry and visible content of the keymap for a screen; drawing and
/// mouse hit-testing both build it, so a resize leaves no stale targets.
pub struct Layout {
    pub x: usize,
    pub y: usize,
    pub width: usize,
    pub height: usize,
    pub columns: usize,
    pub column_width: usize,
    pub column_gap: usize,
    pub body_y: usize,
    pub body_rows: usize,
    pub rows: Vec<Row>,
    pub footer: Vec<String>,
    pub shown_bindings: usize,
    pub total_bindings: usize,
    pub scroll: usize,
    pub max_scroll: usize,
    pub more_above: bool,
    pub more_below: bool,
}

/// A layout as the contracts see it.
pub struct LayoutView {
    pub x: int,
    pub y: int,
    pub width: int,
    pub height: int,
    pub columns: int,
    pub column_width: int,
    pub column_gap: int,
    pub body_y: int,
    pub body_rows: int,
    pub rows: Seq<Seq<Option<CellView>>>,
    pub footer: Seq<Seq<char>>,
    pub shown_bindings: int,
    pub total_bindings: int,
    pub scroll: int,
    pub max_scroll: int,
    pub more_above: bool,
    pub more_below: bool,
}

impl View for Layout {
    type V = LayoutView;

    open spec fn view(&self) -> LayoutView {
        LayoutView {
            x: self.x as int,
            y: self.y as int,
            width: self.width as int,
            height: self.height as int,
            columns: self.columns as int,
            column_width: self.column_width as int,
            column_gap: self.column_gap as int,
            body_y: self.body_y as int,
            body_rows: self.body_rows as int,
            rows: rows_view(self.rows@),
            footer: lines_view(self.footer@),
            shown_bindings: self.shown_bindings as int,
            total_bindings: self.total_bindings as int,
            scroll: self.scroll as int,
            max_scroll: self.max_scroll as int,
            more_above: self.more_above,
            more_below: self.more_below,
        }
    }
}

/// The longest lane's length.
pub open spec fn longest(lanes: Seq<Seq<CellView>>) -> int
    decreases lanes.len(),
{
    if lanes.len() == 0 {
        0
    } else {
        let rest = longest(lanes.drop_last());
        if lanes.last().len() > rest { lanes.last().len() as int } else { rest }
    }
}

/// The cell at `index` of lane `column`, if both exist.
pub open spec fn lane_cell(lanes: Seq<Seq<CellView>>, column: int, index: int) -> Option<CellView> {
    if 0 <= column < lanes.len() && 0 <= index < lanes[column].len() {
        Some(lanes[column][index])
    } else {
        None
    }
}

/// The smaller of two integers.
pub open spec fn min(a: int, b: int) -> int {
    if a <= b { a } else { b }
}

/// Columns the lanes stand apart.
pub const COLUMN_GAP: usize = 2;

/// The inner width from which the keymap shows two lanes side by side.
pub const TWO_COLUMN_MIN_WIDTH: usize = 72;

/// The keymap on a screen: a cell of margin where the screen has room,
/// a border, one lane or two by the inner width, the hint line at the
/// foot (cut to the rows there are), and the lanes' rows from the scroll
/// offset, held to the last full page.
pub open spec fn spec_layout(help: HelpView, screen_width: int, screen_height: int) -> LayoutView {
    let x: int = if screen_width > 2 { 1 } else { 0 };
    let y: int = if screen_height > 2 { 1 } else { 0 };
    let width = at_least_one(sat_sub(screen_width, 2 * x));
    let height = at_least_one(sat_sub(screen_height, 2 * y));
    let inner_width = at_least_one(sat_sub(width, 2));
    let columns: int = if inner_width >= TWO_COLUMN_MIN_WIDTH { 2 } else { 1 };
    let column_width = sat_sub(inner_width, COLUMN_GAP * (columns - 1)) / columns;
    let all_footer = spec_wrap_phrases(footer_text(help), inner_width);
    let footer = if all_footer.len() <= sat_sub(height, 2) { all_footer } else { all_footer.take(sat_sub(height, 2)) };
    let body_rows = sat_sub(height, 2int + footer.len());
    let (lanes, shown) = spec_content(binding_table(), help.query, at_least_one(column_width), columns);
    let max_scroll = sat_sub(longest(lanes), body_rows);
    let scroll = min(help.scroll, max_scroll);
    LayoutView {
        x,
        y,
        width,
        height,
        columns,
        column_width,
        column_gap: COLUMN_GAP as int,
        body_y: y + 1,
        body_rows,
        rows: spec_rows(lanes, columns, scroll, body_rows),
        footer,
        shown_bindings: shown,
        total_bindings: BINDING_COUNT as int,
        scroll,
        max_scroll,
        more_above: scroll > 0,
        more_below: reach_past(lanes, scroll + body_rows),
    }
}

/// The body rows: row `r` holds, for each help column, the lane's cell at
/// `scroll + r`.
pub open spec fn spec_rows(lanes: Seq<Seq<CellView>>, columns: int, scroll: int, body_rows: int) -> Seq<Seq<Option<CellView>>> {
    Seq::new(body_rows as nat, |r: int| Seq::new(columns as nat, |c: int| lane_cell(lanes, c, scroll + r)))
}

/// Some lane runs past `end`.
pub open spec fn reach_past(lanes: Seq<Seq<CellView>>, end: int) -> bool {
    exists|c: int| 0 <= c < lanes.len() && end < (#[trigger] lanes[c]).len()
}

/// The longest lane's length.
fn longest_lane(lanes: &Vec<Vec<Cell>>) -> (n: usize)
    ensures
        n == longest(lanes_view(lanes@)),
        forall|c: int| 0 <= c < lanes@.len() ==> (#[trigger] lanes@[c])@.len() <= n,
{
    let ghost lv = lanes_view(lanes@);
    let mut n: usize = 0;
    let mut i: usize = 0;
    while i < lanes.len()
        invariant
            lv == lanes_view(lanes@),
            i <= lanes@.len(),
            n == longest(lv.take(i as int)),
            forall|c: int| 0 <= c < i ==> (#[trigger] lanes@[c])@.len() <= n,
        decreases lanes@.len() - i,
    {
        assert(lv.take(i as int + 1).drop_last() =~= lv.take(i as int));
        assert(lv[i as int].len() == lanes@[i as int]@.len());
        if lanes[i].len() > n {
            n = lanes[i].len();
        }
        i = i + 1;
    }
    assert(lv.take(lanes@.len() as int) =~= lv);
    n
}

/// One body row: for each help column, the lane's cell at `index`.
fn body_row(lanes: &Vec<Vec<Cell>>, columns: usize, index: usize) -> (row: Row)
    ensures
        row_view(row) == Seq::new(columns as nat, |c: int| lane_cell(lanes_view(lanes@), c, index as int)),
{
    let ghost lv = lanes_view(lanes@);
    let mut cells: Vec<Option<Cell>> = Vec::new();
    let mut c: usize = 0;
    while c < columns
        invariant
            lv == lanes_view(lanes@),
            c <= columns,
            cells@.map_values(|o: Option<Cell>| opt_cell_view(o)) == Seq::new(c as nat, |k: int| lane_cell(lv, k, index as int)),
        decreases columns - c,
    {
        let cell = if c < lanes.len() && index < lanes[c].len() {
            assert(lv[c as int][index as int] == lanes@[c as int]@[index as int]@);
            Some(lanes[c][index].copy())
        } else {
            None
        };
        assert(opt_cell_view(cell) == lane_cell(lv, c as int, index as int));
        let ghost before = cells@.map_values(|o: Option<Cell>| opt_cell_view(o));
        let ghost cv = opt_cell_view(cell);
        cells.push(cell);
        assert(cells@.map_values(|o: Option<Cell>| opt_cell_view(o)) =~= before.push(cv));
        assert(cells@.map_values(|o: Option<Cell>| opt_cell_view(o)) =~= Seq::new(c as nat + 1, |k: int| lane_cell(lv, k, index as int)));
        c = c + 1;
    }
    Row { cells }
}

/// The body rows: row `r` holds, for each help column, the lane's cell
/// at `scroll + r`.
fn visible_rows(lanes: &Vec<Vec<Cell>>, columns: usize, scroll: usize, body_rows: usize) -> (rows: Vec<Row>)
    requires
        scroll + body_rows <= usize::MAX,
    ensures
        rows_view(rows@) == spec_rows(lanes_view(lanes@), columns as int, scroll as int, body_rows as int),
{
    let ghost lv = lanes_view(lanes@);
    let mut rows: Vec<Row> = Vec::new();
    let mut r: usize = 0;
    while r < body_rows
        invariant
            lv == lanes_view(lanes@),
            r <= body_rows,
            scroll + body_rows <= usize::MAX,
            rows_view(rows@) == Seq::new(r as nat, |k: int| Seq::new(columns as nat, |c: int| lane_cell(lv, c, scroll + k))),
        decreases body_rows - r,
    {
        let row = body_row(lanes, columns, scroll + r);
        let ghost before = rows_view(rows@);
        let ghost rv = row_view(row);
        rows.push(row);
        assert(rows_view(rows@) =~= before.push(rv));
        assert(rows_view(rows@) =~= Seq::new(r as nat + 1, |k: int| Seq::new(columns as nat, |c: int| lane_cell(lv, c, scroll + k))));
        r = r + 1;
    }
    assert(rows_view(rows@) =~= spec_rows(lv, columns as int, scroll as int, body_rows as int));
    rows
}

/// Whether some lane runs past `end`.
fn lanes_reach_past(lanes: &Vec<Vec<Cell>>, end: usize) -> (past: bool)
    ensures
        past == reach_past(lanes_view(lanes@), end as int),
{
    let ghost lv = lanes_view(lanes@);
    let mut c: usize = 0;
    while c < lanes.len()
        invariant
            lv == lanes_view(lanes@),
            c <= lanes@.len(),
            forall|k: int| 0 <= k < c ==> end >= (#[trigger] lv[k]).len(),
        decreases lanes@.len() - c,
    {
        assert(lv[c as int].len() == lanes@[c as int]@.len());
        if end < lanes[c].len() {
            assert(end < lv[c as int].len());
            return true;
        }
        c = c + 1;
    }
    false
}

impl Layout {
    /// The keymap laid out on a screen `screen_width` by `screen_height`.
    #[verifier::rlimit(40)]
    pub fn new(help: &Help, screen_width: usize, screen_height: usize) -> (layout: Layout)
        ensures
            layout@ == spec_layout(help@, screen_width as int, screen_height as int),
    {
        let ghost want = spec_layout(help@, screen_width as int, screen_height as int);
        let x: usize = if screen_width > 2 { 1 } else { 0 };
        let y: usize = if screen_height > 2 { 1 } else { 0 };
        let spare = screen_width.saturating_sub(x * 2);
        let width = if spare >= 1 { spare } else { 1 };
        let spare = screen_height.saturating_sub(y * 2);
        let height = if spare >= 1 { spare } else { 1 };
        let spare = width.saturating_sub(2);
        let inner_width = if spare >= 1 { spare } else { 1 };
        let columns: usize = if inner_width >= TWO_COLUMN_MIN_WIDTH { 2 } else { 1 };
        let column_width = inner_width.saturating_sub(COLUMN_GAP * (columns - 1)) / columns;
        let mut footer = footer_lines(help, inner_width);
        let ghost all_footer = lines_view(footer@);
        footer.truncate(height.saturating_sub(2));
        assert(lines_view(footer@) =~= want.footer);
        let body_y = y + 1;
        let body_rows = height.saturating_sub(2 + footer.len());
        let (lanes, shown) = content(help, if column_width >= 1 { column_width } else { 1 }, columns);
        let ghost lv = lanes_view(lanes@);
        let tallest = longest_lane(&lanes);
        let max_scroll = tallest.saturating_sub(body_rows);
        let scroll = if help.scroll <= max_scroll { help.scroll } else { max_scroll };
        assert(scroll == want.scroll);
        assert(scroll + body_rows <= usize::MAX);
        let rows = visible_rows(&lanes, columns, scroll, body_rows);
        let more_below = lanes_reach_past(&lanes, scroll + body_rows);
        let layout = Layout {
            x,
            y,
            width,
            height,
            columns,
            column_width,
            column_gap: COLUMN_GAP,
            body_y,
            body_rows,
            rows,
            footer,
            shown_bindings: shown,
            total_bindings: BINDING_COUNT,
            scroll,
            max_scroll,
            more_above: scroll > 0,
            more_below,
        };
        assert(layout@.rows =~= want.rows);
        assert(layout@.x == want.x);
        assert(layout@.width == want.width);
        assert(layout@.height == want.height);
        assert(layout@.columns == want.columns);
        assert(layout@.column_width == want.column_width);
        assert(layout@.body_rows == want.body_rows);
        assert(layout@.shown_bindings == want.shown_bindings);
        assert(layout@.max_scroll == want.max_scroll);
        assert(layout@.more_below == want.more_below);
        assert(layout@.footer == want.footer);
        layout
    }

    /// The table row whose visible wrapped line holds the screen cell at
    /// `column`, `row`.
    pub fn binding_index_at(&self, column: usize, row: usize) -> (index: Option<usize>)
        requires
            self@.x + 1 <= usize::MAX,
            0 < self@.column_width + self@.column_gap <= usize::MAX,
        ensures
            index == spec_binding_index_at(self@, column as int, row as int),
    {
        if row < self.body_y {
            return None;
        }
        let body_row = row - self.body_y;
        if body_row >= self.rows.len() {
            return None;
        }
        let visible = &self.rows[body_row];
        if column < self.x + 1 {
            return None;
        }
        let inner_column = column - (self.x + 1);
        let stride = self.column_width + self.column_gap;
        let help_column = inner_column / stride;
        if help_column >= self.columns || inner_column % stride >= self.column_width {
            return None;
        }
        if help_column >= visible.cells.len() {
            return None;
        }
        assert(self@.rows[body_row as int] == row_view(self.rows@[body_row as int]));
        assert(self@.rows[body_row as int][help_column as int] == opt_cell_view(visible.cells@[help_column as int]));
        match &visible.cells[help_column] {
            Some(cell) => cell.binding(),
            None => None,
        }
    }

    /// The screen row of the hint line's first line.
    pub fn footer_y(&self) -> (y: usize)
        requires
            self@.y + self@.height <= usize::MAX,
            self@.footer.len() + 1 <= self@.y + self@.height,
        ensures
            y == self@.y + self@.height - 1 - self@.footer.len(),
    {
        self.y + self.height - 1 - self.footer.len()
    }
}

/// The table row whose visible wrapped line holds the screen cell at
/// `column`, `row`: the body row under it, the help column it falls in
/// (not in the gap after one), and that column's cell there.
pub open spec fn spec_binding_index_at(l: LayoutView, column: int, row: int) -> Option<usize> {
    let body_row = row - l.body_y;
    let inner = column - (l.x + 1);
    let stride = l.column_width + l.column_gap;
    let help_column = inner / stride;
    if body_row < 0 || body_row >= l.rows.len() || inner < 0 {
        None
    } else if help_column >= l.columns || inner % stride >= l.column_width || help_column >= l.rows[body_row].len() {
        None
    } else {
        match l.rows[body_row][help_column] {
            Some(cell) => spec_cell_binding(cell),
            None => None,
        }
    }
}

/// The help state with its scroll set.
pub open spec fn scrolled(help: HelpView, scroll: int) -> HelpView {
    HelpView { scroll, ..help }
}

/// The scroll after moving `delta` rows on a screen: the shown offset
/// moved, held to the screen's range.
pub open spec fn spec_scroll_by(help: HelpView, delta: isize, width: int, height: int) -> int {
    let l = spec_layout(help, width, height);
    min(clamp_add_signed(l.scroll as usize, delta), l.max_scroll)
}

/// `a * b`, held to the range of `isize`.
pub open spec fn clamp_mul(a: isize, b: isize) -> int {
    let p = a * b;
    if p < isize::MIN { isize::MIN as int } else if p > isize::MAX { isize::MAX as int } else { p }
}

/// `a * b`, held to the range of `isize` (`isize::saturating_mul`).
fn mul_clamped(a: isize, b: isize) -> (p: isize)
    ensures
        p == clamp_mul(a, b),
{
    let x = a as i128;
    let y = b as i128;
    assert(-0x8000_0000_0000_0000 * 0x8000_0000_0000_0000 <= x * y <= 0x8000_0000_0000_0000 * 0x8000_0000_0000_0000) by (nonlinear_arith)
        requires
            -0x8000_0000_0000_0000 <= x <= 0x8000_0000_0000_0000,
            -0x8000_0000_0000_0000 <= y <= 0x8000_0000_0000_0000,
    ;
    let wide = x * y;
    if wide < isize::MIN as i128 {
        isize::MIN
    } else if wide > isize::MAX as i128 {
        isize::MAX
    } else {
        wide as isize
    }
}

/// The rows one page moves on a screen: the body's rows (at least one),
/// held to `isize::MAX`.
pub open spec fn page_rows(help: HelpView, width: int, height: int) -> isize {
    let rows = at_least_one(spec_layout(help, width, height).body_rows);
    if rows <= isize::MAX { rows as isize } else { isize::MAX }
}

impl Help {
    /// The keymap laid out on a screen.
    pub fn layout(&self, width: usize, height: usize) -> (layout: Layout)
        ensures
            layout@ == spec_layout(self@, width as int, height as int),
    {
        Layout::new(self, width, height)
    }

    /// A new query shows the sections from the top.
    pub fn requery(&mut self)
        ensures
            final(self)@ == scrolled(old(self)@, 0),
    {
        self.scroll = 0;
    }

    /// Moves `delta` rows, held to the screen's range.
    pub fn scroll_by(&mut self, delta: isize, width: usize, height: usize)
        ensures
            final(self)@ == scrolled(old(self)@, spec_scroll_by(old(self)@, delta, width as int, height as int)),
    {
        let layout = self.layout(width, height);
        let moved = add_signed_clamped(layout.scroll, delta);
        self.scroll = if moved <= layout.max_scroll { moved } else { layout.max_scroll };
    }

    /// Moves `pages` pages of the body's rows.
    pub fn page_by(&mut self, pages: isize, width: usize, height: usize)
        ensures
            final(self)@ == scrolled(
                old(self)@,
                spec_scroll_by(old(self)@, clamp_mul(pages, page_rows(old(self)@, width as int, height as int)) as isize, width as int, height as int),
            ),
    {
        let body_rows = self.layout(width, height).body_rows;
        let rows = if body_rows >= 1 { body_rows } else { 1 };
        let rows: isize = if rows <= isize::MAX as usize { rows as isize } else { isize::MAX };
        self.scroll_by(mul_clamped(pages, rows), width, height);
    }

    /// Shows the last full page.
    pub fn scroll_end(&mut self, width: usize, height: usize)
        ensures
            final(self)@ == scrolled(old(self)@, spec_layout(old(self)@, width as int, height as int).max_scroll),
    {
        self.scroll = self.layout(width, height).max_scroll;
    }

    /// Holds the scroll to the screen's range after a resize.
    pub fn clamp(&mut self, width: usize, height: usize)
        ensures
            final(self)@ == scrolled(old(self)@, spec_layout(old(self)@, width as int, height as int).scroll),
    {
        self.scroll = self.layout(width, height).scroll;
    }
}

/// What a key does to the keymap, and whether it closes it. Escape clears
/// a query (or leaves typing one) before it closes; `/` starts typing;
/// while typing, Enter stops, Backspace erases and a plain character is
/// added; otherwise the arrows, `j`/`k`, the page keys, Ctrl-d/Ctrl-u,
/// Home/End and `g`/`G` scroll. Any other key does nothing.
pub open spec fn spec_help_key(help: HelpView, event: KeyPress, width: int, height: int) -> (HelpView, bool) {
    let plain = !event.ctrl && !event.alt && !event.extra;
    let typing = help.filtering;
    let code = event.code;
    if code == KeyCode::Esc {
        if typing || help.query.len() > 0 {
            (HelpView { query: Seq::empty(), filtering: false, scroll: 0 }, false)
        } else {
            (help, true)
        }
    } else if code == KeyCode::Char('/') && plain && !typing {
        (HelpView { filtering: true, ..help }, false)
    } else if code == KeyCode::Enter && typing {
        (HelpView { filtering: false, ..help }, false)
    } else if code == KeyCode::Backspace && typing {
        let query = if help.query.len() > 0 { help.query.drop_last() } else { help.query };
        (HelpView { query, scroll: 0, ..help }, false)
    } else if (code == KeyCode::Down || code == KeyCode::Char('j')) && !typing {
        (scrolled(help, spec_scroll_by(help, 1, width, height)), false)
    } else if (code == KeyCode::Up || code == KeyCode::Char('k')) && !typing {
        (scrolled(help, spec_scroll_by(help, -1isize, width, height)), false)
    } else if (code == KeyCode::PageDown || (code == KeyCode::Char('d') && event.ctrl)) && !typing {
        (scrolled(help, spec_scroll_by(help, clamp_mul(1, page_rows(help, width, height)) as isize, width, height)), false)
    } else if (code == KeyCode::PageUp || (code == KeyCode::Char('u') && event.ctrl)) && !typing {
        (scrolled(help, spec_scroll_by(help, clamp_mul(-1isize, page_rows(help, width, height)) as isize, width, height)), false)
    } else if (code == KeyCode::Home || code == KeyCode::Char('g')) && !typing {
        (scrolled(help, 0), false)
    } else if (code == KeyCode::End || code == KeyCode::Char('G')) && !typing {
        (scrolled(help, spec_layout(help, width, height).max_scroll), false)
    } else {
        match code {
            KeyCode::Char(ch) => if typing && plain {
                (HelpView { query: help.query.push(ch), scroll: 0, ..help }, false)
            } else {
                (help, false)
            },
            _ => (help, false),
        }
    }
}

impl Help {
    /// Handles a key while the keymap is open; whether it closes.
    pub fn key(&mut self, event: KeyPress, width: usize, height: usize) -> (closes: bool)
        ensures
            (final(self)@, closes) == spec_help_key(old(self)@, event, width as int, height as int),
    {
        let typing = self.filtering;
        let plain = !event.ctrl && !event.alt && !event.extra;
        let code = event.code;
        if code == KeyCode::Esc {
            if self.filtering || !self.query.as_str().is_empty() {
                self.query = String::new();
                self.filtering = false;
                self.requery();
                return false;
            }
            return true;
        }
        if code == KeyCode::Char('/') && plain && !typing {
            self.filtering = true;
        } else if code == KeyCode::Enter && typing {
            self.filtering = false;
        } else if code == KeyCode::Backspace && typing {
            pop_char(&mut self.query);
            self.requery();
        } else if (code == KeyCode::Down || code == KeyCode::Char('j')) && !typing {
            self.scroll_by(1, width, height);
        } else if (code == KeyCode::Up || code == KeyCode::Char('k')) && !typing {
            self.scroll_by(-1, width, height);
        } else if (code == KeyCode::PageDown || (code == KeyCode::Char('d') && event.ctrl)) && !typing {
            self.page_by(1, width, height);
        } else if (code == KeyCode::PageUp || (code == KeyCode::Char('u') && event.ctrl)) && !typing {
            self.page_by(-1, width, height);
        } else if (code == KeyCode::Home || code == KeyCode::Char('g')) && !typing {
            self.scroll = 0;
        } else if (code == KeyCode::End || code == KeyCode::Char('G')) && !typing {
            self.scroll_end(width, height);
        } else {
            match code {
                KeyCode::Char(ch) => {
                    if typing && plain {
                        push_char(&mut self.query, ch);
                        self.requery();
                    }
                },
                _ => {},
            }
        }
        false
    }
}

/// How many of the first `n` rows the query keeps for each of the
/// groups `gs`, added up.
pub open spec fn kept_rows(tb: Seq<BindingView>, gs: Seq<Seq<char>>, q: Seq<char>, n: int) -> int
    decreases gs.len(),
{
    if gs.len() == 0 { 0 } else { kept_rows(tb, gs.drop_last(), q, n) + shown_in(tb, gs.last(), q, n).len() }
}

proof fn lemma_kept_rows_concat(tb: Seq<BindingView>, a: Seq<Seq<char>>, b: Seq<Seq<char>>, q: Seq<char>, n: int)
    ensures
        kept_rows(tb, a + b, q, n) == kept_rows(tb, a, q, n) + kept_rows(tb, b, q, n),
    decreases b.len(),
{
    if b.len() == 0 {
        assert(a + b =~= a);
    } else {
        assert((a + b).drop_last() =~= a + b.drop_last());
        lemma_kept_rows_concat(tb, a, b.drop_last(), q, n);
    }
}

proof fn lemma_rank_bounded(g: Seq<char>)
    ensures
        0 <= spec_section_rank(g) < 7,
{
}

proof fn lemma_ranked_below_last(tb: Seq<BindingView>, gs: Seq<Seq<char>>, q: Seq<char>, n: int, r: int)
    requires
        gs.len() > 0,
    ensures
        kept_rows(tb, ranked_below(gs, r), q, n) == kept_rows(tb, ranked_below(gs.drop_last(), r), q, n)
            + if spec_section_rank(gs.last()) < r { shown_in(tb, gs.last(), q, n).len() as int } else { 0 },
    decreases r,
{
    if r > 0 {
        lemma_ranked_below_last(tb, gs, q, n, r - 1);
        lemma_kept_rows_concat(tb, ranked_below(gs, r - 1), of_rank(gs, r - 1), q, n);
        lemma_kept_rows_concat(tb, ranked_below(gs.drop_last(), r - 1), of_rank(gs.drop_last(), r - 1), q, n);
        if spec_section_rank(gs.last()) == r - 1 {
            assert(of_rank(gs, r - 1).drop_last() == of_rank(gs.drop_last(), r - 1));
        }
    }
}

proof fn lemma_ranked_keeps_all(tb: Seq<BindingView>, gs: Seq<Seq<char>>, q: Seq<char>, n: int)
    ensures
        kept_rows(tb, ranked_below(gs, 7), q, n) == kept_rows(tb, gs, q, n),
    decreases gs.len(),
{
    if gs.len() == 0 {
        assert(ranked_below(gs, 7) =~= Seq::<Seq<char>>::empty()) by {
            lemma_ranked_below_empty(gs, 7);
        }
    } else {
        lemma_ranked_keeps_all(tb, gs.drop_last(), q, n);
        lemma_ranked_below_last(tb, gs, q, n, 7);
        lemma_rank_bounded(gs.last());
    }
}

proof fn lemma_ranked_below_empty(gs: Seq<Seq<char>>, r: int)
    requires
        gs.len() == 0,
    ensures
        ranked_below(gs, r).len() == 0,
    decreases r,
{
    if r > 0 {
        lemma_ranked_below_empty(gs, r - 1);
    }
}

/// `gs` holds no group twice.
pub open spec fn distinct_groups(gs: Seq<Seq<char>>) -> bool {
    forall|i: int, j: int| 0 <= i < j < gs.len() ==> gs[i] != gs[j]
}

proof fn lemma_first_groups_facts(tb: Seq<BindingView>, n: int)
    requires
        0 <= n <= tb.len(),
    ensures
        distinct_groups(first_groups(tb, n)),
        forall|i: int| 0 <= i < n ==> first_groups(tb, n).contains(#[trigger] tb[i].group),
    decreases n,
{
    if n > 0 {
        lemma_first_groups_facts(tb, n - 1);
        let gs = first_groups(tb, n - 1);
        let g = tb[n - 1].group;
        if !gs.contains(g) {
            assert forall|i: int| 0 <= i < n implies first_groups(tb, n).contains(#[trigger] tb[i].group) by {
                if i < n - 1 {
                    let k = choose|k: int| 0 <= k < gs.len() && gs[k] == tb[i].group;
                    assert(gs.push(g)[k] == tb[i].group);
                } else {
                    assert(gs.push(g)[gs.len() as int] == g);
                }
            }
        }
    }
}

/// Rows of a group the table's first `n` rows never show: none.
proof fn lemma_unseen_group_keeps_none(tb: Seq<BindingView>, g: Seq<char>, q: Seq<char>, n: int)
    requires
        0 <= n <= tb.len(),
        q.len() == 0,
        !first_groups(tb, n).contains(g),
    ensures
        shown_in(tb, g, q, n).len() == 0,
    decreases n,
{
    if n > 0 {
        lemma_first_groups_facts(tb, n);
        assert(tb[n - 1].group != g);
        let gs = first_groups(tb, n - 1);
        if gs.contains(g) {
            let k = choose|k: int| 0 <= k < gs.len() && gs[k] == g;
            if gs.contains(tb[n - 1].group) {
                assert(first_groups(tb, n)[k] == g);
            } else {
                assert(gs.push(tb[n - 1].group)[k] == g);
            }
        }
        lemma_unseen_group_keeps_none(tb, g, q, n - 1);
    }
}

proof fn lemma_kept_rows_step(tb: Seq<BindingView>, gs: Seq<Seq<char>>, q: Seq<char>, n: int)
    requires
        0 <= n < tb.len(),
        q.len() == 0,
        distinct_groups(gs),
    ensures
        kept_rows(tb, gs, q, n + 1) == kept_rows(tb, gs, q, n) + if gs.contains(tb[n].group) { 1int } else { 0int },
    decreases gs.len(),
{
    if gs.len() > 0 {
        let rest = gs.drop_last();
        assert forall|i: int, j: int| 0 <= i < j < rest.len() implies rest[i] != rest[j] by {
            assert(gs[i] != gs[j]);
        }
        lemma_kept_rows_step(tb, rest, q, n);
        let x = tb[n].group;
        if gs.last() == x && rest.contains(x) {
            let k = choose|k: int| 0 <= k < rest.len() && rest[k] == x;
            assert(gs[k] != gs[gs.len() - 1]);
        }
        if rest.contains(x) {
            let k = choose|k: int| 0 <= k < rest.len() && rest[k] == x;
            assert(gs[k] == x);
        }
        if gs.contains(x) && gs.last() != x {
            let k = choose|k: int| 0 <= k < gs.len() && gs[k] == x;
            assert(rest[k] == x);
        }
    }
}

proof fn lemma_first_groups_keep_all(tb: Seq<BindingView>, q: Seq<char>, n: int)
    requires
        0 <= n <= tb.len(),
        q.len() == 0,
    ensures
        kept_rows(tb, first_groups(tb, n), q, n) == n,
    decreases n,
{
    if n > 0 {
        let m = n - 1;
        lemma_first_groups_keep_all(tb, q, m);
        lemma_first_groups_facts(tb, m);
        lemma_first_groups_facts(tb, n);
        let gs = first_groups(tb, m);
        let x = tb[m].group;
        lemma_kept_rows_step(tb, gs, q, m);
        if !gs.contains(x) {
            lemma_unseen_group_keeps_none(tb, x, q, m);
            assert(gs.push(x).drop_last() =~= gs);
        }
    }
}

proof fn lemma_shown_count_is_kept_rows(tb: Seq<BindingView>, gs: Seq<Seq<char>>, q: Seq<char>)
    requires
        kept_rows(tb, gs, q, tb.len() as int) <= usize::MAX,
    ensures
        shown_count(tb, gs, q) == kept_rows(tb, gs, q, tb.len() as int),
    decreases gs.len(),
{
    if gs.len() > 0 {
        lemma_shown_count_is_kept_rows(tb, gs.drop_last(), q);
    }
}

/// The keymap hides nothing: a query that trims and lowercases to nothing
/// shows every row of the binding table.
pub proof fn lemma_empty_query_shows_every_binding(help: HelpView, screen_width: int, screen_height: int)
    requires
        lowercase(trimmed(help.query)).len() == 0,
    ensures
        spec_layout(help, screen_width, screen_height).shown_bindings
            == spec_layout(help, screen_width, screen_height).total_bindings,
{
    let tb = binding_table();
    let q = lowercase(trimmed(help.query));
    let n = tb.len() as int;
    lemma_first_groups_keep_all(tb, q, n);
    lemma_ranked_keeps_all(tb, first_groups(tb, n), q, n);
    lemma_shown_count_is_kept_rows(tb, ranked_groups(tb), q);
}

proof fn lemma_query_shows_no_more(tb: Seq<BindingView>, g: Seq<char>, q: Seq<char>, n: int)
    ensures
        shown_in(tb, g, q, n).len() <= shown_in(tb, g, Seq::empty(), n).len(),
    decreases n,
{
    if n > 0 {
        lemma_query_shows_no_more(tb, g, q, n - 1);
    }
}

proof fn lemma_kept_rows_no_more(tb: Seq<BindingView>, gs: Seq<Seq<char>>, q: Seq<char>, n: int)
    ensures
        kept_rows(tb, gs, q, n) <= kept_rows(tb, gs, Seq::empty(), n),
    decreases gs.len(),
{
    if gs.len() > 0 {
        lemma_kept_rows_no_more(tb, gs.drop_last(), q, n);
        lemma_query_shows_no_more(tb, gs.last(), q, n);
    }
}

proof fn lemma_shown_count_at_most_kept(tb: Seq<BindingView>, gs: Seq<Seq<char>>, q: Seq<char>)
    ensures
        0 <= shown_count(tb, gs, q) <= kept_rows(tb, gs, q, tb.len() as int),
    decreases gs.len(),
{
    if gs.len() > 0 {
        lemma_shown_count_at_most_kept(tb, gs.drop_last(), q);
    }
}

/// The keymap's layout on every screen and in every state: the scroll is
/// the asked one held to the last page; there is a row for every body
/// row and a cell for every lane in it; two lanes from 74 columns; more
/// above exactly when scrolled; every binding of the table counted, and
/// no more shown than there are.
pub proof fn lemma_layout_shape(help: HelpView, screen_width: int, screen_height: int)
    requires
        help.scroll >= 0,
        screen_width >= 0,
        screen_height >= 0,
    ensures
        ({
            let l = spec_layout(help, screen_width, screen_height);
            &&& l.scroll == min(help.scroll, l.max_scroll)
            &&& l.rows.len() == l.body_rows
            &&& forall|r: int| 0 <= r < l.rows.len() ==> (#[trigger] l.rows[r]).len() == l.columns
            &&& l.columns == if l.width >= 74 { 2int } else { 1int }
            &&& l.more_above == (l.scroll > 0)
            &&& l.total_bindings == binding_table().len()
            &&& 0 <= l.shown_bindings <= l.total_bindings
        }),
{
    let tb = binding_table();
    let l = spec_layout(help, screen_width, screen_height);
    let q = lowercase(trimmed(help.query));
    let e = Seq::<char>::empty();
    let n = tb.len() as int;
    let gs = ranked_groups(tb);
    lemma_shown_count_at_most_kept(tb, gs, q);
    lemma_kept_rows_no_more(tb, gs, q, n);
    lemma_first_groups_keep_all(tb, e, n);
    lemma_ranked_keeps_all(tb, first_groups(tb, n), e, n);
    let inner_width = at_least_one(sat_sub(at_least_one(sat_sub(screen_width, 2 * (if screen_width > 2 { 1int } else { 0int }))), 2));
    let columns: int = if inner_width >= TWO_COLUMN_MIN_WIDTH { 2 } else { 1 };
    let column_width = sat_sub(inner_width, COLUMN_GAP * (columns - 1)) / columns;
    assert(l.shown_bindings == spec_content(tb, help.query, at_least_one(column_width), columns).1);
}

/// A click lands on the binding drawn under it: on body row `r`, help
/// column `col` and `off` cells into that column's stride, the click gives
/// the binding of the cell drawn there, and nothing in the gap after it.
pub proof fn lemma_click_lands_on_the_drawn_cell(help: HelpView, screen_width: int, screen_height: int, r: int, col: int, off: int)
    requires
        help.scroll >= 0,
        screen_width >= 0,
        screen_height >= 0,
        0 <= r < spec_layout(help, screen_width, screen_height).rows.len(),
        0 <= col < spec_layout(help, screen_width, screen_height).columns,
        0 <= off < spec_layout(help, screen_width, screen_height).column_width
            + spec_layout(help, screen_width, screen_height).column_gap,
    ensures
        ({
            let l = spec_layout(help, screen_width, screen_height);
            spec_binding_index_at(l, l.x + 1 + col * (l.column_width + l.column_gap) + off, l.body_y + r)
                == if off < l.column_width {
                    match l.rows[r][col] {
                        Some(cell) => spec_cell_binding(cell),
                        None => None,
                    }
                } else {
                    None
                }
        }),
{
    let l = spec_layout(help, screen_width, screen_height);
    lemma_layout_shape(help, screen_width, screen_height);
    let stride = l.column_width + l.column_gap;
    assert(l.rows[r].len() == l.columns);
    assert(col * stride >= 0) by (nonlinear_arith)
        requires
            col >= 0,
            stride >= 0,
    ;
    vstd::arithmetic::div_mod::lemma_fundamental_div_mod_converse(col * stride + off, stride, col, off);
    assert(col * stride == stride * col) by (nonlinear_arith);
}

/// The table row of an optional cell.
pub open spec fn opt_cell_binding(cell: Option<CellView>) -> Option<usize> {
    match cell {
        Some(c) => spec_cell_binding(c),
        None => None,
    }
}

/// Some cell of `cells` is a line of table row `i`.
pub open spec fn holds_entry(cells: Seq<CellView>, i: int) -> bool {
    exists|k: int| 0 <= k < cells.len() && #[trigger] spec_cell_binding(cells[k]) == Some(i as usize)
}

proof fn lemma_holds_concat(a: Seq<CellView>, b: Seq<CellView>, i: int)
    ensures
        holds_entry(a, i) || holds_entry(b, i) ==> holds_entry(a + b, i),
{
    if holds_entry(a, i) {
        let k = choose|k: int| 0 <= k < a.len() && #[trigger] spec_cell_binding(a[k]) == Some(i as usize);
        assert((a + b)[k] == a[k]);
    } else if holds_entry(b, i) {
        let k = choose|k: int| 0 <= k < b.len() && #[trigger] spec_cell_binding(b[k]) == Some(i as usize);
        assert((a + b)[a.len() + k] == b[k]);
    }
}

proof fn lemma_entry_lines_start(row: usize, keys: Seq<char>, label: Seq<char>, column_width: int)
    ensures
        holds_entry(spec_entry_lines(row, keys, label, column_width), row as int),
{
    let lines = spec_entry_lines(row, keys, label, column_width);
    assert(lines.len() >= 1);
    assert(spec_cell_binding(lines[0]) == Some(row));
}

proof fn lemma_entries_hold_their_rows(tb: Seq<BindingView>, rows: Seq<usize>, column_width: int, j: int)
    requires
        0 <= j < rows.len(),
    ensures
        holds_entry(entries_cells(tb, rows, column_width), rows[j] as int),
    decreases rows.len(),
{
    let rest = entries_cells(tb, rows.drop_last(), column_width);
    let row = rows.last();
    let lines = spec_entry_lines(row, keys_text(tb[row as int]), tb[row as int].label, column_width);
    if j < rows.len() - 1 {
        lemma_entries_hold_their_rows(tb, rows.drop_last(), column_width, j);
        assert(rows.drop_last()[j] == rows[j]);
    } else {
        lemma_entry_lines_start(row, keys_text(tb[row as int]), tb[row as int].label, column_width);
    }
    lemma_holds_concat(rest, lines, rows[j] as int);
}

proof fn lemma_shown_keeps_row(tb: Seq<BindingView>, g: Seq<char>, q: Seq<char>, n: int, i: int)
    requires
        q.len() == 0,
        0 <= i < n <= tb.len(),
        n <= usize::MAX,
        tb[i].group == g,
    ensures
        exists|j: int| 0 <= j < shown_in(tb, g, q, n).len() && shown_in(tb, g, q, n)[j] == i as usize,
    decreases n,
{
    let rest = shown_in(tb, g, q, n - 1);
    if i < n - 1 {
        lemma_shown_keeps_row(tb, g, q, n - 1, i);
        let j = choose|j: int| 0 <= j < rest.len() && rest[j] == i as usize;
        assert(shown_in(tb, g, q, n)[j] == i as usize);
    } else {
        assert(shown_in(tb, g, q, n) == rest.push((n - 1) as usize));
        assert(shown_in(tb, g, q, n)[rest.len() as int] == i as usize);
    }
}

/// Every section of `blocks_of` is its group's title and rows.
proof fn lemma_blocks_are_sections(tb: Seq<BindingView>, gs: Seq<Seq<char>>, q: Seq<char>, column_width: int)
    ensures
        forall|b: int| 0 <= b < blocks_of(tb, gs, q, column_width).len() ==>
            (#[trigger] blocks_of(tb, gs, q, column_width)[b]).1
                == block_cells(tb, blocks_of(tb, gs, q, column_width)[b].0, shown_in(tb, blocks_of(tb, gs, q, column_width)[b].0, q, tb.len() as int), column_width),
    decreases gs.len(),
{
    if gs.len() > 0 {
        lemma_blocks_are_sections(tb, gs.drop_last(), q, column_width);
        let rest = blocks_of(tb, gs.drop_last(), q, column_width);
        let all = blocks_of(tb, gs, q, column_width);
        assert forall|b: int| 0 <= b < all.len() implies
            (#[trigger] all[b]).1 == block_cells(tb, all[b].0, shown_in(tb, all[b].0, q, tb.len() as int), column_width) by {
            if b < rest.len() {
                assert(all[b] == rest[b]);
            }
        }
    }
}

proof fn lemma_block_for_group(tb: Seq<BindingView>, gs: Seq<Seq<char>>, q: Seq<char>, column_width: int, j: int)
    requires
        0 <= j < gs.len(),
        shown_in(tb, gs[j], q, tb.len() as int).len() > 0,
    ensures
        exists|b: int| 0 <= b < blocks_of(tb, gs, q, column_width).len()
            && (#[trigger] blocks_of(tb, gs, q, column_width)[b]).0 == gs[j],
    decreases gs.len(),
{
    let rest = blocks_of(tb, gs.drop_last(), q, column_width);
    if j < gs.len() - 1 {
        lemma_block_for_group(tb, gs.drop_last(), q, column_width, j);
        assert(gs.drop_last()[j] == gs[j]);
        let b = choose|b: int| 0 <= b < rest.len() && (#[trigger] rest[b]).0 == gs.drop_last()[j];
        assert(blocks_of(tb, gs, q, column_width)[b] == rest[b]);
    } else {
        assert(blocks_of(tb, gs, q, column_width)[rest.len() as int].0 == gs[j]);
    }
}

proof fn lemma_all_cells_hold(blocks: Seq<(Seq<char>, Seq<CellView>)>, b: int, i: int)
    requires
        0 <= b < blocks.len(),
        holds_entry(blocks[b].1, i),
    ensures
        holds_entry(all_cells(blocks), i),
    decreases blocks.len(),
{
    if b < blocks.len() - 1 {
        lemma_all_cells_hold(blocks.drop_last(), b, i);
    }
    lemma_holds_concat(all_cells(blocks.drop_last()), blocks.last().1, i);
}

proof fn lemma_block_named_finds(blocks: Seq<(Seq<char>, Seq<CellView>)>, name: Seq<char>, b: int, cells: Seq<CellView>)
    requires
        0 <= b < blocks.len(),
        blocks[b].0 == name,
        forall|k: int| 0 <= k < blocks.len() && (#[trigger] blocks[k]).0 == name ==> blocks[k].1 == cells,
    ensures
        block_named(blocks, name) == cells,
    decreases blocks.len(),
{
    if blocks[0].0 != name {
        let rest = blocks.drop_first();
        assert(rest[b - 1] == blocks[b]);
        assert forall|k: int| 0 <= k < rest.len() && (#[trigger] rest[k]).0 == name implies rest[k].1 == cells by {
            assert(rest[k] == blocks[k + 1]);
        }
        lemma_block_named_finds(rest, name, b - 1, cells);
    }
}

proof fn lemma_unplaced_keeps(blocks: Seq<(Seq<char>, Seq<CellView>)>, b: int)
    requires
        0 <= b < blocks.len(),
        !placed_name(blocks[b].0),
    ensures
        exists|k: int| 0 <= k < unplaced(blocks).len() && #[trigger] unplaced(blocks)[k] == blocks[b],
    decreases blocks.len(),
{
    let rest = unplaced(blocks.drop_last());
    if b < blocks.len() - 1 {
        lemma_unplaced_keeps(blocks.drop_last(), b);
        let k = choose|k: int| 0 <= k < rest.len() && #[trigger] rest[k] == blocks.drop_last()[b];
        assert(unplaced(blocks)[k] == rest[k]);
    } else {
        assert(unplaced(blocks)[rest.len() as int] == blocks[b]);
    }
}

proof fn lemma_balanced_holds(lanes: (Seq<CellView>, Seq<CellView>), rest: Seq<(Seq<char>, Seq<CellView>)>, i: int)
    requires
        holds_entry(lanes.0, i) || holds_entry(lanes.1, i)
            || exists|k: int| 0 <= k < rest.len() && holds_entry((#[trigger] rest[k]).1, i),
    ensures
        holds_entry(balanced(lanes, rest).0, i) || holds_entry(balanced(lanes, rest).1, i),
    decreases rest.len(),
{
    if rest.len() > 0 {
        let (a, b) = balanced(lanes, rest.drop_last());
        let cells = rest.last().1;
        if holds_entry(lanes.0, i) || holds_entry(lanes.1, i)
            || exists|k: int| 0 <= k < rest.len() - 1 && holds_entry((#[trigger] rest[k]).1, i) {
            if !(holds_entry(lanes.0, i) || holds_entry(lanes.1, i)) {
                let k = choose|k: int| 0 <= k < rest.len() - 1 && holds_entry((#[trigger] rest[k]).1, i);
                assert(rest.drop_last()[k] == rest[k]);
            }
            lemma_balanced_holds(lanes, rest.drop_last(), i);
        }
        lemma_holds_concat(a, cells, i);
        lemma_holds_concat(b, cells, i);
    }
}

proof fn lemma_of_rank_keeps(gs: Seq<Seq<char>>, g: Seq<char>)
    requires
        gs.contains(g),
    ensures
        of_rank(gs, spec_section_rank(g)).contains(g),
    decreases gs.len(),
{
    let rest = of_rank(gs.drop_last(), spec_section_rank(g));
    if gs.last() == g {
        assert(of_rank(gs, spec_section_rank(g))[rest.len() as int] == g);
    } else {
        let k = choose|k: int| 0 <= k < gs.len() && gs[k] == g;
        assert(gs.drop_last()[k] == g);
        lemma_of_rank_keeps(gs.drop_last(), g);
        let j = choose|j: int| 0 <= j < rest.len() && rest[j] == g;
        assert(of_rank(gs, spec_section_rank(g))[j] == g);
    }
}

proof fn lemma_ranked_below_keeps(gs: Seq<Seq<char>>, g: Seq<char>, r: int)
    requires
        gs.contains(g),
        0 <= spec_section_rank(g) < r,
    ensures
        ranked_below(gs, r).contains(g),
    decreases r,
{
    let before = ranked_below(gs, r - 1);
    let here = of_rank(gs, r - 1);
    if spec_section_rank(g) == r - 1 {
        lemma_of_rank_keeps(gs, g);
        let j = choose|j: int| 0 <= j < here.len() && here[j] == g;
        assert((before + here)[before.len() + j] == g);
    } else {
        lemma_ranked_below_keeps(gs, g, r - 1);
        let j = choose|j: int| 0 <= j < before.len() && before[j] == g;
        assert((before + here)[j] == g);
    }
}

/// With an empty query, the lanes hold a line of every table row.
#[verifier::spinoff_prover]
#[verifier::rlimit(40)]
proof fn lemma_lanes_hold_every_row(tb: Seq<BindingView>, query: Seq<char>, column_width: int, columns: int, i: int)
    requires
        lowercase(trimmed(query)).len() == 0,
        columns == 1 || columns == 2,
        0 <= i < tb.len() <= usize::MAX,
    ensures
        ({
            let lanes = spec_content(tb, query, column_width, columns).0;
            &&& lanes.len() == columns
            &&& exists|c: int| 0 <= c < columns && holds_entry(#[trigger] lanes[c], i)
        }),
{
    let q = lowercase(trimmed(query));
    let n = tb.len() as int;
    let g = tb[i].group;
    let fg = first_groups(tb, n);
    lemma_first_groups_facts(tb, n);
    lemma_rank_bounded(g);
    lemma_ranked_below_keeps(fg, g, 7);
    let gs = ranked_groups(tb);
    let j = choose|j: int| 0 <= j < gs.len() && gs[j] == g;
    lemma_shown_keeps_row(tb, g, q, n, i);
    let rows = shown_in(tb, g, q, n);
    let r = choose|r: int| 0 <= r < rows.len() && rows[r] == i as usize;
    lemma_block_for_group(tb, gs, q, column_width, j);
    let blocks = blocks_of(tb, gs, q, column_width);
    let b = choose|b: int| 0 <= b < blocks.len() && (#[trigger] blocks[b]).0 == gs[j];
    lemma_blocks_are_sections(tb, gs, q, column_width);
    let cells = block_cells(tb, g, rows, column_width);
    assert(blocks[b].1 == cells);
    lemma_entries_hold_their_rows(tb, rows, column_width, r);
    lemma_holds_concat(seq![CellView::Heading(spec_section_title(g))], entries_cells(tb, rows, column_width), i);
    assert(holds_entry(cells, i));
    let lanes = spec_content(tb, query, column_width, columns).0;
    if columns == 1 {
        lemma_all_cells_hold(blocks, b, i);
        assert(holds_entry(lanes[0], i));
    } else {
        let first = block_named(blocks, "Move"@) + block_named(blocks, "Search"@) + block_named(blocks, "Select"@);
        let second = block_named(blocks, "Threads"@) + block_named(blocks, "Display"@);
        if placed_name(g) {
            assert forall|k: int| 0 <= k < blocks.len() && (#[trigger] blocks[k]).0 == g implies blocks[k].1 == cells by {
            }
            lemma_block_named_finds(blocks, g, b, cells);
            lemma_holds_concat(block_named(blocks, "Move"@), block_named(blocks, "Search"@), i);
            lemma_holds_concat(block_named(blocks, "Move"@) + block_named(blocks, "Search"@), block_named(blocks, "Select"@), i);
            lemma_holds_concat(block_named(blocks, "Threads"@), block_named(blocks, "Display"@), i);
            lemma_balanced_holds((first, second), unplaced(blocks), i);
        } else {
            lemma_unplaced_keeps(blocks, b);
            let k = choose|k: int| 0 <= k < unplaced(blocks).len() && #[trigger] unplaced(blocks)[k] == blocks[b];
            assert(holds_entry(unplaced(blocks)[k].1, i));
            lemma_balanced_holds((first, second), unplaced(blocks), i);
        }
        assert(holds_entry(lanes[0], i) || holds_entry(lanes[1], i));
    }
}

proof fn lemma_longest_bounds(lanes: Seq<Seq<CellView>>, c: int)
    requires
        0 <= c < lanes.len(),
    ensures
        lanes[c].len() <= longest(lanes),
    decreases lanes.len(),
{
    if c < lanes.len() - 1 {
        lemma_longest_bounds(lanes.drop_last(), c);
        assert(lanes.drop_last()[c] == lanes[c]);
    }
}

proof fn lemma_longest_reached(lanes: Seq<Seq<CellView>>, end: int)
    requires
        longest(lanes) <= end,
    ensures
        !reach_past(lanes, end),
{
    assert forall|c: int| 0 <= c < lanes.len() implies end >= (#[trigger] lanes[c]).len() by {
        lemma_longest_bounds(lanes, c);
    }
}

/// Scrolling the keymap reaches every binding: with no filter and a body
/// at least a row tall, every row of the table is drawn in some body row
/// and lane at some scroll offset up to the last page, and at the last
/// page nothing lies below.
#[verifier::spinoff_prover]
#[verifier::rlimit(60)]
pub proof fn lemma_scrolling_reaches_every_binding(help: HelpView, screen_width: int, screen_height: int, i: int)
    requires
        lowercase(trimmed(help.query)).len() == 0,
        help.scroll >= 0,
        screen_width >= 0,
        screen_height >= 0,
        spec_layout(help, screen_width, screen_height).body_rows >= 1,
        0 <= i < binding_table().len(),
    ensures
        exists|s: int, r: int, c: int|
            0 <= s <= spec_layout(help, screen_width, screen_height).max_scroll
                && 0 <= r < spec_layout(scrolled(help, s), screen_width, screen_height).rows.len()
                && 0 <= c < spec_layout(scrolled(help, s), screen_width, screen_height).rows[r].len()
                && opt_cell_binding(#[trigger] spec_layout(scrolled(help, s), screen_width, screen_height).rows[r][c]) == Some(i as usize),
        !spec_layout(scrolled(help, spec_layout(help, screen_width, screen_height).max_scroll), screen_width, screen_height).more_below,
{
    let l = spec_layout(help, screen_width, screen_height);
    let x: int = if screen_width > 2 { 1 } else { 0 };
    let width = at_least_one(sat_sub(screen_width, 2 * x));
    let inner_width = at_least_one(sat_sub(width, 2));
    let columns: int = if inner_width >= TWO_COLUMN_MIN_WIDTH { 2 } else { 1 };
    let column_width = sat_sub(inner_width, COLUMN_GAP * (columns - 1)) / columns;
    let lanes = spec_content(binding_table(), help.query, at_least_one(column_width), columns).0;
    lemma_lanes_hold_every_row(binding_table(), help.query, at_least_one(column_width), columns, i);
    let c = choose|c: int| 0 <= c < columns && holds_entry(#[trigger] lanes[c], i);
    let k = choose|k: int| 0 <= k < lanes[c].len() && #[trigger] spec_cell_binding(lanes[c][k]) == Some(i as usize);
    lemma_longest_bounds(lanes, c);
    let s = if k <= l.max_scroll { k } else { l.max_scroll };
    let r = k - s;
    let ls = spec_layout(scrolled(help, s), screen_width, screen_height);
    assert(ls.scroll == s);
    assert(ls.rows[r][c] == lane_cell(lanes, c, s + r));
    assert(ls.rows[r][c] == Some(lanes[c][k]));
    let lm = spec_layout(scrolled(help, l.max_scroll), screen_width, screen_height);
    lemma_longest_reached(lanes, lm.scroll + lm.body_rows);
}

/// Lines laid end to end.
pub open spec fn joined(lines: Seq<Seq<char>>) -> Seq<char>
    decreases lines.len(),
{
    if lines.len() == 0 { Seq::empty() } else { joined(lines.drop_last()) + lines.last() }
}

proof fn lemma_hard_fold_keeps_text(chars: Seq<char>, width: int)
    ensures
        joined(hard_fold(chars, width).0) + hard_fold(chars, width).1 == chars,
    decreases chars.len(),
{
    if chars.len() > 0 {
        lemma_hard_fold_keeps_text(chars.drop_last(), width);
        let (lines, line, used) = hard_fold(chars.drop_last(), width);
        let ch = chars.last();
        assert(lines.push(line).drop_last() =~= lines);
        assert(joined(lines) + line + seq![ch] =~= chars);
        assert(joined(lines) + line.push(ch) =~= chars);
    }
}

/// Hard wrapping neither loses nor adds a character: its lines, laid end
/// to end, are the text.
pub proof fn lemma_wrap_hard_keeps_text(text: Seq<char>, width: int)
    ensures
        joined(spec_wrap_hard(text, width)) == text,
        spec_wrap_hard(text, width).len() >= 1,
{
    let w = at_least_one(width);
    lemma_hard_fold_keeps_text(text, w);
    let (lines, line, used) = hard_fold(text, w);
    if line.len() > 0 || lines.len() == 0 {
        assert(lines.push(line).drop_last() =~= lines);
    } else {
        assert(joined(lines) + line =~= joined(lines));
    }
}

} // verus!
