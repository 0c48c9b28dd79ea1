//! The responsive layout of a pending-prefix hint card: how many columns,
//! how wide the labels, and where the sections are split, so that the card
//! fits the pane and drawing and hit-testing share one geometry.

use vstd::prelude::*;

use crate::bindings::{chord_text, sections_view, Chord, MenuEntry, MenuSection};
use crate::text::{display_width, text_width};

verus! {

/// Section boundaries inside entries `start..end`: each neighbour pair
/// from different sections takes a rule row between them.
pub open spec fn breaks(ids: Seq<usize>, start: int, end: int) -> int
    decreases end - start,
{
    if end <= start + 1 {
        0
    } else {
        breaks(ids, start, end - 1) + if ids[end - 1] != ids[end - 2] { 1int } else { 0int }
    }
}

/// The rows a column holding entries `start..end` takes: one per entry,
/// and one rule between sections.
pub open spec fn spec_segment_height(ids: Seq<usize>, start: int, end: int) -> int {
    (if end > start { end - start } else { 0 }) + breaks(ids, start, end)
}

proof fn lemma_breaks_bounded(ids: Seq<usize>, start: int, end: int)
    requires
        start <= end,
    ensures
        0 <= breaks(ids, start, end) <= if end > start { end - start - 1 } else { 0 },
    decreases end - start,
{
    if end > start + 1 {
        lemma_breaks_bounded(ids, start, end - 1);
    }
}

/// The rows a column holding entries `start..end` takes.
pub fn segment_height(section_ids: &[usize], start: usize, end: usize) -> (height: usize)
    requires
        start <= end <= section_ids@.len(),
        section_ids@.len() <= usize::MAX / 2,
    ensures
        height == spec_segment_height(section_ids@, start as int, end as int),
        height <= 2 * (end - start),
{
    proof {
        lemma_breaks_bounded(section_ids@, start as int, end as int);
    }
    if end - start <= 1 {
        return end - start;
    }
    let mut count: usize = 0;
    let mut index = start + 1;
    {
        while index < end
            invariant
                start < index <= end <= section_ids@.len(),
                count == breaks(section_ids@, start as int, index as int),
                count <= index - start - 1,
            decreases end - index,
        {
            if section_ids[index] != section_ids[index - 1] {
                count = count + 1;
            }
            index = index + 1;
        }
    }
    (end - start) + count
}

/// The widest key and widest (clipped to `label_width`) label among
/// entries `start..end`; a column is at least one key cell wide.
pub open spec fn spec_dimensions(widths: Seq<(usize, usize)>, start: int, end: int, label_width: int) -> (int, int)
    decreases end - start,
{
    if end <= start {
        (1, 0)
    } else {
        let (key, label) = spec_dimensions(widths, start, end - 1, label_width);
        let (entry_key, entry_label) = widths[end - 1];
        let clipped: int = if entry_label <= label_width { entry_label as int } else { label_width };
        (if entry_key > key { entry_key as int } else { key }, if clipped > label { clipped } else { label })
    }
}

proof fn lemma_dimensions_bounded(widths: Seq<(usize, usize)>, start: int, end: int, label_width: int, bound: int)
    requires
        0 <= start <= end <= widths.len(),
        0 <= label_width,
        1 <= bound,
        forall|i: int| 0 <= i < widths.len() ==> (#[trigger] widths[i]).0 <= bound && widths[i].1 <= bound,
    ensures
        1 <= spec_dimensions(widths, start, end, label_width).0 <= bound,
        0 <= spec_dimensions(widths, start, end, label_width).1 <= bound,
        spec_dimensions(widths, start, end, label_width).1 <= label_width,
    decreases end - start,
{
    if end > start {
        lemma_dimensions_bounded(widths, start, end - 1, label_width, bound);
        let _ = widths[end - 1];
    }
}

/// Every entry's widths are small enough that a column's width fits the
/// machine's integers.
pub open spec fn widths_fit(widths: Seq<(usize, usize)>) -> bool {
    forall|i: int| 0 <= i < widths.len() ==> (#[trigger] widths[i]).0 <= usize::MAX / 4 && widths[i].1 <= usize::MAX / 4
}

/// The widest key and widest clipped label among entries `start..end`.
pub fn hint_column_dimensions(
    entry_widths: &[(usize, usize)],
    start: usize,
    end: usize,
    label_width: usize,
) -> (dims: (usize, usize))
    requires
        start <= end <= entry_widths@.len(),
    ensures
        dims.0 == spec_dimensions(entry_widths@, start as int, end as int, label_width as int).0,
        dims.1 == spec_dimensions(entry_widths@, start as int, end as int, label_width as int).1,
{
    let mut key: usize = 1;
    let mut label: usize = 0;
    let mut index = start;
    while index < end
        invariant
            start <= index <= end <= entry_widths@.len(),
            key == spec_dimensions(entry_widths@, start as int, index as int, label_width as int).0,
            label == spec_dimensions(entry_widths@, start as int, index as int, label_width as int).1,
        decreases end - index,
    {
        let (entry_key, entry_label) = entry_widths[index];
        let clipped = if entry_label <= label_width { entry_label } else { label_width };
        if entry_key > key {
            key = entry_key;
        }
        if clipped > label {
            label = clipped;
        }
        index = index + 1;
    }
    (key, label)
}

/// The cells a hint column takes: its keys, and when it shows labels, two
/// cells of gap, the labels, and three cells of padding.
pub open spec fn spec_hint_column_width(key_width: int, label_width: int) -> int {
    key_width + if label_width > 0 { 2 + label_width + 3 } else { 0 }
}

/// The cells a hint column takes.
pub fn hint_column_width(key_width: usize, label_width: usize) -> (width: usize)
    requires
        spec_hint_column_width(key_width as int, label_width as int) <= usize::MAX,
    ensures
        width == spec_hint_column_width(key_width as int, label_width as int),
{
    key_width + if label_width > 0 { 2 + label_width + 3 } else { 0 }
}

/// A way to cut the entries into columns: where each column ends, and what
/// the cut costs.
pub struct Partition {
    /// The end of each column's entries, in order; the last is the count.
    pub ends: Vec<usize>,
    /// Columns that start inside a section.
    pub cuts: usize,
    /// The sum of the squares of the column heights, saturating.
    pub squared_heights: usize,
    /// The tallest column's rows.
    pub tallest: usize,
    /// The cells the columns take, without borders.
    pub body_width: usize,
}

/// A partition as the contracts see it.
pub struct PartitionView {
    pub ends: Seq<usize>,
    pub cuts: int,
    pub squared_heights: int,
    pub tallest: int,
    pub body_width: int,
}

impl View for Partition {
    type V = PartitionView;

    open spec fn view(&self) -> PartitionView {
        PartitionView {
            ends: self.ends@,
            cuts: self.cuts as int,
            squared_heights: self.squared_heights as int,
            tallest: self.tallest as int,
            body_width: self.body_width as int,
        }
    }
}

/// Partitions by their views.
pub open spec fn parts_view(parts: Seq<Partition>) -> Seq<PartitionView> {
    parts.map_values(|p: Partition| p@)
}

/// Where column `k` starts: where the one before it ends, or at the first
/// entry.
pub open spec fn seg_start(ends: Seq<usize>, k: int) -> int {
    if k <= 0 { 0 } else { ends[k - 1] as int }
}

/// `x`, held to `usize::MAX`.
pub open spec fn sat(x: int) -> int {
    if x > usize::MAX { usize::MAX as int } else { x }
}

/// The cells the column of entries `start..end` takes at `label_width`.
pub open spec fn seg_width(widths: Seq<(usize, usize)>, start: int, end: int, label_width: int) -> int {
    let dims = spec_dimensions(widths, start, end, label_width);
    spec_hint_column_width(dims.0, dims.1)
}

/// The cells all columns of `ends` take together.
pub open spec fn body_of(widths: Seq<(usize, usize)>, label_width: int, ends: Seq<usize>) -> int
    decreases ends.len(),
{
    if ends.len() == 0 {
        0
    } else {
        body_of(widths, label_width, ends.drop_last())
            + seg_width(widths, seg_start(ends, ends.len() - 1), ends.last() as int, label_width)
    }
}

/// How many columns of `ends` start inside a section.
pub open spec fn cuts_of(ids: Seq<usize>, ends: Seq<usize>) -> int
    decreases ends.len(),
{
    if ends.len() == 0 {
        0
    } else {
        let s = seg_start(ends, ends.len() - 1);
        cuts_of(ids, ends.drop_last()) + if s > 0 && ids[s - 1] == ids[s] { 1int } else { 0int }
    }
}

/// The saturating sum of the squared column heights of `ends`.
pub open spec fn squares_of(ids: Seq<usize>, ends: Seq<usize>) -> int
    decreases ends.len(),
{
    if ends.len() == 0 {
        0
    } else {
        let h = spec_segment_height(ids, seg_start(ends, ends.len() - 1), ends.last() as int);
        sat(squares_of(ids, ends.drop_last()) + sat(h * h))
    }
}

/// The tallest column of `ends`.
pub open spec fn tallest_of(ids: Seq<usize>, ends: Seq<usize>) -> int
    decreases ends.len(),
{
    if ends.len() == 0 {
        0
    } else {
        let h = spec_segment_height(ids, seg_start(ends, ends.len() - 1), ends.last() as int);
        let rest = tallest_of(ids, ends.drop_last());
        if h > rest { h } else { rest }
    }
}

/// Every column of `ends` is non-empty, in order, within the entries, and
/// no taller than `row_limit`.
pub open spec fn segments_ok(ids: Seq<usize>, ends: Seq<usize>, row_limit: int) -> bool {
    forall|k: int| 0 <= k < ends.len() ==> {
        &&& seg_start(ends, k) < #[trigger] ends[k]
        &&& ends[k] <= ids.len()
        &&& spec_segment_height(ids, seg_start(ends, k), ends[k] as int) <= row_limit
    }
}

/// The card to lay out: each entry's section and widths, the label width
/// tried, the tallest column allowed, and the widest body that fits.
pub struct Problem {
    pub ids: Seq<usize>,
    pub widths: Seq<(usize, usize)>,
    pub label_width: int,
    pub row_limit: int,
    pub max_body: int,
}

/// `ends` cuts the first `end` entries into `used` columns, each no taller
/// than the row limit, together no wider than the body.
pub open spec fn feasible(pr: Problem, used: int, end: int, ends: Seq<usize>) -> bool {
    &&& ends.len() == used
    &&& if used == 0 { end == 0 } else { ends.last() == end }
    &&& segments_ok(pr.ids, ends, pr.row_limit)
    &&& body_of(pr.widths, pr.label_width, ends) <= pr.max_body
}

/// The partition's costs are those of its ends.
pub open spec fn accounted(pr: Problem, p: PartitionView) -> bool {
    &&& p.body_width == body_of(pr.widths, pr.label_width, p.ends)
    &&& p.cuts == cuts_of(pr.ids, p.ends)
    &&& p.squared_heights == squares_of(pr.ids, p.ends)
    &&& p.tallest == tallest_of(pr.ids, p.ends)
}

/// Some partition in `cells` is no wider than `b`.
pub open spec fn dominated(cells: Seq<PartitionView>, b: int) -> bool {
    exists|k: int| 0 <= k < cells.len() && (#[trigger] cells[k]).body_width <= b
}

proof fn lemma_ends_grow(ids: Seq<usize>, ends: Seq<usize>, row_limit: int, k: int)
    requires
        segments_ok(ids, ends, row_limit),
        0 <= k < ends.len(),
    ensures
        ends[k] >= k + 1,
        seg_start(ends, k) >= k,
    decreases k,
{
    let _ = ends[k];
    if k > 0 {
        lemma_ends_grow(ids, ends, row_limit, k - 1);
        let _ = ends[k - 1];
    }
}

proof fn lemma_cuts_bounded(ids: Seq<usize>, ends: Seq<usize>)
    ensures
        0 <= cuts_of(ids, ends) <= ends.len(),
    decreases ends.len(),
{
    if ends.len() > 0 {
        lemma_cuts_bounded(ids, ends.drop_last());
    }
}

proof fn lemma_body_nonnegative(widths: Seq<(usize, usize)>, label_width: int, ends: Seq<usize>)
    requires
        label_width >= 0,
    ensures
        body_of(widths, label_width, ends) >= 0,
    decreases ends.len(),
{
    if ends.len() > 0 {
        lemma_body_nonnegative(widths, label_width, ends.drop_last());
        let dims = spec_dimensions(widths, seg_start(ends, ends.len() - 1), ends.last() as int, label_width);
        lemma_dimensions_nonnegative(widths, seg_start(ends, ends.len() - 1), ends.last() as int, label_width);
    }
}

proof fn lemma_dimensions_nonnegative(widths: Seq<(usize, usize)>, start: int, end: int, label_width: int)
    requires
        label_width >= 0,
    ensures
        spec_dimensions(widths, start, end, label_width).0 >= 1,
        spec_dimensions(widths, start, end, label_width).1 >= 0,
    decreases end - start,
{
    if end > start {
        lemma_dimensions_nonnegative(widths, start, end - 1, label_width);
    }
}

/// A feasible partition without its last column is a feasible partition of
/// the entries before that column, narrower by that column's width.
proof fn lemma_drop_last_feasible(pr: Problem, used: int, end: int, ends: Seq<usize>)
    requires
        used >= 1,
        pr.label_width >= 0,
        feasible(pr, used, end, ends),
    ensures
        feasible(pr, used - 1, seg_start(ends, used - 1), ends.drop_last()),
        body_of(pr.widths, pr.label_width, ends) == body_of(pr.widths, pr.label_width, ends.drop_last())
            + seg_width(pr.widths, seg_start(ends, used - 1), end, pr.label_width),
        spec_segment_height(pr.ids, seg_start(ends, used - 1), end) <= pr.row_limit,
{
    let prefix = ends.drop_last();
    let _ = ends[used - 1];
    assert forall|k: int| 0 <= k < prefix.len() implies {
        &&& seg_start(prefix, k) < #[trigger] prefix[k]
        &&& prefix[k] <= pr.ids.len()
        &&& spec_segment_height(pr.ids, seg_start(prefix, k), prefix[k] as int) <= pr.row_limit
    } by {
        let _ = ends[k];
        assert(seg_start(prefix, k) == seg_start(ends, k));
    }
    lemma_dimensions_nonnegative(pr.widths, seg_start(ends, used - 1), end, pr.label_width);
    lemma_body_nonnegative(pr.widths, pr.label_width, prefix);
    if used == 1 {
        assert(prefix.len() == 0);
    }
}

/// A feasible partition of the entries before `start`, followed by the
/// column `start..end`, is a feasible partition of the entries before
/// `end`, with that column's costs added.
proof fn lemma_extend_feasible(pr: Problem, used: int, start: usize, end: usize, q: PartitionView)
    requires
        used >= 1,
        pr.label_width >= 0,
        feasible(pr, used - 1, start as int, q.ends),
        accounted(pr, q),
        start < end <= pr.ids.len(),
        spec_segment_height(pr.ids, start as int, end as int) <= pr.row_limit,
        q.body_width + seg_width(pr.widths, start as int, end as int, pr.label_width) <= pr.max_body,
    ensures
        ({
            let ends = q.ends.push(end);
            let h = spec_segment_height(pr.ids, start as int, end as int);
            &&& feasible(pr, used, end as int, ends)
            &&& seg_start(ends, used - 1) == start
            &&& body_of(pr.widths, pr.label_width, ends) == q.body_width + seg_width(pr.widths, start as int, end as int, pr.label_width)
            &&& cuts_of(pr.ids, ends) == q.cuts + if start > 0 && pr.ids[start - 1] == pr.ids[start as int] { 1int } else { 0int }
            &&& squares_of(pr.ids, ends) == sat(q.squared_heights + sat(h * h))
            &&& tallest_of(pr.ids, ends) == if h > q.tallest { h } else { q.tallest }
        }),
{
    let ends = q.ends.push(end);
    assert(ends.drop_last() =~= q.ends);
    if used - 1 == 0 {
        assert(start == 0);
    }
    assert(seg_start(ends, used - 1) == start);
    assert forall|k: int| 0 <= k < ends.len() implies {
        &&& seg_start(ends, k) < #[trigger] ends[k]
        &&& ends[k] <= pr.ids.len()
        &&& spec_segment_height(pr.ids, seg_start(ends, k), ends[k] as int) <= pr.row_limit
    } by {
        if k < used - 1 {
            assert(ends[k] == q.ends[k]);
            let _ = q.ends[k];
            assert(seg_start(ends, k) == seg_start(q.ends, k));
        } else {
            assert(ends[k] == end);
        }
    }
}

/// Whether `a` orders after `b` lexicographically.
pub open spec fn lex_greater(a: Seq<usize>, b: Seq<usize>) -> bool
    decreases a.len(),
{
    if a.len() == 0 {
        false
    } else if b.len() == 0 {
        true
    } else if a[0] != b[0] {
        a[0] > b[0]
    } else {
        lex_greater(a.drop_first(), b.drop_first())
    }
}

/// No sequence orders after itself.
proof fn lemma_lex_irreflexive(a: Seq<usize>)
    ensures
        !lex_greater(a, a),
    decreases a.len(),
{
    if a.len() > 0 {
        lemma_lex_irreflexive(a.drop_first());
    }
}

/// The lexicographic order is a strict total order.
proof fn lemma_lex_order(a: Seq<usize>, b: Seq<usize>, c: Seq<usize>)
    ensures
        lex_greater(a, b) ==> !lex_greater(b, a),
        lex_greater(a, b) && lex_greater(b, c) ==> lex_greater(a, c),
        a != b ==> lex_greater(a, b) || lex_greater(b, a),
    decreases a.len(),
{
    if a.len() > 0 && b.len() > 0 && c.len() > 0 {
        lemma_lex_order(a.drop_first(), b.drop_first(), c.drop_first());
    }
    if a.len() > 0 && b.len() > 0 {
        lemma_lex_order(a.drop_first(), b.drop_first(), b.drop_first());
        if a[0] == b[0] && a.drop_first() == b.drop_first() {
            assert(a =~= b) by {
                assert forall|i: int| 0 <= i < a.len() implies a[i] == b[i] by {
                    if i > 0 {
                        assert(a[i] == a.drop_first()[i - 1]);
                        assert(b[i] == b.drop_first()[i - 1]);
                    }
                }
            }
        }
    }
    if a.len() == 0 && b.len() == 0 {
        assert(a =~= b);
    }
}

/// Ending two sequences of one length alike keeps their order.
proof fn lemma_lex_push(a: Seq<usize>, b: Seq<usize>, x: usize)
    requires
        a.len() == b.len(),
    ensures
        lex_greater(a.push(x), b.push(x)) == lex_greater(a, b),
    decreases a.len(),
{
    if a.len() == 0 {
        lemma_lex_irreflexive(seq![x]);
        assert(a.push(x) =~= seq![x]);
        assert(b.push(x) =~= seq![x]);
    } else {
        assert(a.push(x).drop_first() =~= a.drop_first().push(x));
        assert(b.push(x).drop_first() =~= b.drop_first().push(x));
        lemma_lex_push(a.drop_first(), b.drop_first(), x);
    }
}

/// Whether partition `a` ranks above `b`: fewer sections split, then more
/// even column heights, then later ends.
pub open spec fn ranks_above(a: PartitionView, b: PartitionView) -> bool {
    a.cuts < b.cuts || (a.cuts == b.cuts && (a.squared_heights < b.squared_heights
        || (a.squared_heights == b.squared_heights && lex_greater(a.ends, b.ends))))
}

/// Whether partition `a` ranks above `b` or lays the card out as it does.
pub open spec fn no_worse(a: PartitionView, b: PartitionView) -> bool {
    ranks_above(a, b) || (a.cuts == b.cuts && a.squared_heights == b.squared_heights && a.ends == b.ends)
}

/// Ranking is a strict total order on layouts.
proof fn lemma_rank_order(a: PartitionView, b: PartitionView, c: PartitionView)
    ensures
        ranks_above(a, b) ==> !ranks_above(b, a),
        no_worse(a, b) ==> !ranks_above(b, a),
        no_worse(a, b) && no_worse(b, c) ==> no_worse(a, c),
        no_worse(a, b) && ranks_above(b, c) ==> ranks_above(a, c),
        ranks_above(a, b) && no_worse(b, c) ==> ranks_above(a, c),
        !ranks_above(a, b) ==> no_worse(b, a),
{
    lemma_lex_order(a.ends, b.ends, c.ends);
    lemma_lex_irreflexive(a.ends);
    lemma_lex_irreflexive(b.ends);
}

/// The sum of the squared column heights of `ends`, not held to the
/// machine's integers.
pub open spec fn exact_squares(ids: Seq<usize>, ends: Seq<usize>) -> int
    decreases ends.len(),
{
    if ends.len() == 0 {
        0
    } else {
        let h = spec_segment_height(ids, seg_start(ends, ends.len() - 1), ends.last() as int);
        exact_squares(ids, ends.drop_last()) + h * h
    }
}

/// The squared heights of `ends` sum to no more than `usize::MAX`.
pub open spec fn unsaturated(ids: Seq<usize>, ends: Seq<usize>) -> bool {
    exact_squares(ids, ends) <= usize::MAX
}

/// Below the machine's limit the saturating sum is the sum, and dropping
/// the last column keeps it there.
proof fn lemma_exact_squares(ids: Seq<usize>, ends: Seq<usize>)
    ensures
        exact_squares(ids, ends) >= 0,
        ends.len() > 0 ==> exact_squares(ids, ends.drop_last()) <= exact_squares(ids, ends),
        unsaturated(ids, ends) ==> squares_of(ids, ends) == exact_squares(ids, ends),
    decreases ends.len(),
{
    if ends.len() > 0 {
        let h = spec_segment_height(ids, seg_start(ends, ends.len() - 1), ends.last() as int);
        assert(h * h >= 0) by (nonlinear_arith);
        lemma_exact_squares(ids, ends.drop_last());
    }
}

/// The partition that `ends` is, with its costs.
pub open spec fn as_partition(pr: Problem, ends: Seq<usize>) -> PartitionView {
    PartitionView {
        ends,
        cuts: cuts_of(pr.ids, ends),
        squared_heights: squares_of(pr.ids, ends),
        tallest: tallest_of(pr.ids, ends),
        body_width: body_of(pr.widths, pr.label_width, ends),
    }
}

/// Some partition in `cells` is no wider than `b` and no worse than `f`.
pub open spec fn covers(cells: Seq<PartitionView>, b: int, f: PartitionView) -> bool {
    exists|k: int| 0 <= k < cells.len() && (#[trigger] cells[k]).body_width <= b && no_worse(cells[k], f)
}

/// For every feasible partition into `used` columns of the first `end`
/// entries whose squared heights fit the machine, `cell` holds one no
/// wider and no worse.
pub open spec fn cell_optimal(pr: Problem, used: int, end: int, cell: Seq<PartitionView>) -> bool {
    forall|ends: Seq<usize>| #[trigger] feasible(pr, used, end, ends) && unsaturated(pr.ids, ends)
        ==> covers(cell, body_of(pr.widths, pr.label_width, ends), as_partition(pr, ends))
}

/// Whether `a` orders after `b` lexicographically.
fn ends_greater(a: &Vec<usize>, b: &Vec<usize>) -> (greater: bool)
    ensures
        greater == lex_greater(a@, b@),
{
    let mut i: usize = 0;
    assert(a@.skip(0) =~= a@);
    assert(b@.skip(0) =~= b@);
    while i < a.len() && i < b.len()
        invariant
            i <= a@.len(),
            i <= b@.len(),
            forall|k: int| 0 <= k < i ==> a@[k] == b@[k],
            lex_greater(a@, b@) == lex_greater(a@.skip(i as int), b@.skip(i as int)),
        decreases a@.len() - i,
    {
        if a[i] != b[i] {
            assert(a@.skip(i as int)[0] == a@[i as int]);
            assert(b@.skip(i as int)[0] == b@[i as int]);
            return a[i] > b[i];
        }
        assert(a@.skip(i as int).drop_first() =~= a@.skip(i as int + 1));
        assert(b@.skip(i as int).drop_first() =~= b@.skip(i as int + 1));
        i = i + 1;
    }
    i < a.len()
}

/// Whether two sequences of ends are the same.
fn same_ends(a: &Vec<usize>, b: &Vec<usize>) -> (same: bool)
    ensures
        same == (a@ == b@),
{
    if a.len() != b.len() {
        return false;
    }
    let mut i: usize = 0;
    while i < a.len()
        invariant
            a@.len() == b@.len(),
            i <= a@.len(),
            forall|k: int| 0 <= k < i ==> a@[k] == b@[k],
        decreases a@.len() - i,
    {
        if a[i] != b[i] {
            return false;
        }
        i = i + 1;
    }
    assert(a@ =~= b@);
    true
}

/// Whether `candidate` is a better cut than `current`: fewer sections
/// split, then more even column heights, then later ends.
fn better(candidate: &Partition, current: &Partition) -> (b: bool)
    ensures
        b == ranks_above(candidate@, current@),
{
    candidate.cuts < current.cuts
        || (candidate.cuts == current.cuts
            && (candidate.squared_heights < current.squared_heights
                || (candidate.squared_heights == current.squared_heights
                    && ends_greater(&candidate.ends, &current.ends))))
}

/// Whether two partitions lay the card out the same way.
fn same_layout(candidate: &Partition, current: &Partition) -> (same: bool)
    ensures
        same == (candidate@.cuts == current@.cuts && candidate@.squared_heights == current@.squared_heights
            && candidate@.ends == current@.ends),
{
    candidate.cuts == current.cuts && candidate.squared_heights == current.squared_heights
        && same_ends(&candidate.ends, &current.ends)
}

impl Partition {
    /// The same partition, owned anew.
    pub fn copy(&self) -> (p: Partition)
        ensures
            p@ == self@,
    {
        let mut ends: Vec<usize> = Vec::new();
        let mut i: usize = 0;
        while i < self.ends.len()
            invariant
                i <= self.ends@.len(),
                ends@ == self.ends@.take(i as int),
            decreases self.ends@.len() - i,
        {
            ends.push(self.ends[i]);
            i = i + 1;
            assert(ends@ =~= self.ends@.take(i as int));
        }
        assert(self.ends@.take(self.ends@.len() as int) =~= self.ends@);
        Partition {
            ends,
            cuts: self.cuts,
            squared_heights: self.squared_heights,
            tallest: self.tallest,
            body_width: self.body_width,
        }
    }
}

/// Some of the first `j` partitions is no wider than `b`.
pub open spec fn covered(parts: Seq<PartitionView>, j: int, b: int) -> bool {
    exists|m: int| 0 <= m < j && (#[trigger] parts[m]).body_width <= b
}

/// Ending two partitions of the same entries with the same column keeps
/// their ranking, so long as the squared heights of the one ranked
/// against fit the machine.
proof fn lemma_extension_keeps_rank(pr: Problem, used: int, start: usize, end: usize, p: PartitionView, prefix: Seq<usize>)
    requires
        used >= 1,
        start < end,
        feasible(pr, used - 1, start as int, p.ends),
        accounted(pr, p),
        feasible(pr, used - 1, start as int, prefix),
        no_worse(p, as_partition(pr, prefix)),
        unsaturated(pr.ids, prefix.push(end)),
    ensures
        no_worse(as_partition(pr, p.ends.push(end)), as_partition(pr, prefix.push(end))),
{
    let e = p.ends.push(end);
    let f = prefix.push(end);
    assert(e.drop_last() =~= p.ends);
    assert(f.drop_last() =~= prefix);
    if used - 1 > 0 {
        assert(seg_start(e, used - 1) == p.ends[used - 2]);
        assert(seg_start(f, used - 1) == prefix[used - 2]);
    }
    assert(seg_start(e, used - 1) == start);
    assert(seg_start(f, used - 1) == start);
    let h = spec_segment_height(pr.ids, start as int, end as int);
    assert(e.last() == end && f.last() == end);
    lemma_exact_squares(pr.ids, f);
    lemma_exact_squares(pr.ids, prefix);
    assert(h * h >= 0) by (nonlinear_arith);
    assert(exact_squares(pr.ids, f) == exact_squares(pr.ids, prefix) + h * h);
    assert(squares_of(pr.ids, prefix) == exact_squares(pr.ids, prefix));
    assert(squares_of(pr.ids, e) == sat(squares_of(pr.ids, p.ends) + sat(h * h)));
    assert(squares_of(pr.ids, f) == sat(squares_of(pr.ids, prefix) + sat(h * h)));
    lemma_lex_push(p.ends, prefix, end);
    lemma_rank_order(p, as_partition(pr, prefix), as_partition(pr, prefix));
}

/// Some of the first `j` partitions is no wider than `b` and no worse than
/// `f`.
pub open spec fn covers_upto(cells: Seq<PartitionView>, j: int, b: int, f: PartitionView) -> bool {
    exists|m: int| 0 <= m < j && (#[trigger] cells[m]).body_width <= b && no_worse(cells[m], f)
}

/// Keep `candidate` among `candidates` unless one no wider is at least as
/// good; drop those it beats that are no narrower.
fn insert_candidate(candidates: &mut Vec<Partition>, candidate: Partition)
    ensures
        forall|k: int| 0 <= k < final(candidates)@.len() ==>
            #[trigger] parts_view(final(candidates)@)[k] == candidate@
                || exists|m: int| 0 <= m < old(candidates)@.len() && #[trigger] parts_view(old(candidates)@)[m] == parts_view(final(candidates)@)[k],
        forall|b: int| dominated(parts_view(old(candidates)@), b) ==> dominated(parts_view(final(candidates)@), b),
        dominated(parts_view(final(candidates)@), candidate@.body_width),
        forall|b: int, f: PartitionView| #[trigger] covers(parts_view(old(candidates)@), b, f)
            ==> covers(parts_view(final(candidates)@), b, f),
        covers(parts_view(final(candidates)@), candidate@.body_width, candidate@),
{
    let ghost before = parts_view(candidates@);
    let mut i: usize = 0;
    while i < candidates.len()
        invariant
            before == parts_view(candidates@),
            i <= candidates@.len(),
        decreases candidates@.len() - i,
    {
        let current = &candidates[i];
        if current.body_width <= candidate.body_width
            && (better(current, &candidate) || same_layout(current, &candidate)) {
            proof {
                assert(before[i as int].body_width <= candidate@.body_width);
                assert(no_worse(before[i as int], candidate@));
            }
            return;
        }
        i = i + 1;
    }
    let mut kept: Vec<Partition> = Vec::new();
    let ghost mut origin: Seq<int> = Seq::empty();
    let mut j: usize = 0;
    while j < candidates.len()
        invariant
            before == parts_view(candidates@),
            j <= candidates@.len(),
            origin.len() == kept@.len(),
            forall|k: int| 0 <= k < kept@.len() ==> 0 <= #[trigger] origin[k] < before.len() && before[origin[k]] == kept@[k]@,
            forall|b: int| #[trigger] covered(before, j as int, b)
                ==> dominated(parts_view(kept@), b) || candidate@.body_width <= b,
            forall|b: int, f: PartitionView| #[trigger] covers_upto(before, j as int, b, f)
                ==> covers(parts_view(kept@), b, f) || (candidate@.body_width <= b && no_worse(candidate@, f)),
        decreases candidates@.len() - j,
    {
        let current = &candidates[j];
        assert(before[j as int] == current@);
        let ghost old_kept = parts_view(kept@);
        let keep = candidate.body_width > current.body_width
            || (!better(&candidate, current) && !same_layout(&candidate, current));
        if keep {
            kept.push(current.copy());
            proof {
                origin = origin.push(j as int);
                assert(parts_view(kept@)[kept@.len() - 1] == before[j as int]);
                assert forall|k: int| 0 <= k < old_kept.len() implies parts_view(kept@)[k] == old_kept[k] by {}
            }
        }
        proof {
            assert forall|b: int| #[trigger] covered(before, j as int + 1, b)
                implies dominated(parts_view(kept@), b) || candidate@.body_width <= b by {
                let m = choose|m: int| 0 <= m < j + 1 && (#[trigger] before[m]).body_width <= b;
                if m < j {
                    if !(candidate@.body_width <= b) {
                        assert(covered(before, j as int, b));
                        let k = choose|k: int| 0 <= k < old_kept.len() && (#[trigger] old_kept[k]).body_width <= b;
                        assert(parts_view(kept@)[k] == old_kept[k]);
                    }
                } else if candidate@.body_width > before[j as int].body_width {
                    assert(parts_view(kept@)[kept@.len() - 1].body_width <= b);
                }
            }
            assert forall|b: int, f: PartitionView| #[trigger] covers_upto(before, j as int + 1, b, f)
                implies covers(parts_view(kept@), b, f) || (candidate@.body_width <= b && no_worse(candidate@, f)) by {
                let m = choose|m: int| 0 <= m < j + 1 && (#[trigger] before[m]).body_width <= b && no_worse(before[m], f);
                if m < j {
                    assert(covers_upto(before, j as int, b, f));
                    if covers(old_kept, b, f) {
                        let k = choose|k: int| 0 <= k < old_kept.len() && (#[trigger] old_kept[k]).body_width <= b && no_worse(old_kept[k], f);
                        assert(parts_view(kept@)[k] == old_kept[k]);
                    }
                } else if keep {
                    assert(parts_view(kept@)[kept@.len() - 1] == before[j as int]);
                } else {
                    lemma_rank_order(candidate@, before[j as int], f);
                }
            }
        }
        j = j + 1;
    }
    let ghost kept_view = parts_view(kept@);
    let ghost cand = candidate@;
    kept.push(candidate);
    proof {
        assert(parts_view(kept@)[kept@.len() - 1] == cand);
        assert forall|b: int| dominated(before, b) implies dominated(parts_view(kept@), b) by {
            let m = choose|m: int| 0 <= m < before.len() && (#[trigger] before[m]).body_width <= b;
            assert(covered(before, before.len() as int, b));
            if cand.body_width <= b {
                assert(parts_view(kept@)[kept@.len() - 1].body_width <= b);
            } else {
                let k = choose|k: int| 0 <= k < kept_view.len() && (#[trigger] kept_view[k]).body_width <= b;
                assert(parts_view(kept@)[k] == kept_view[k]);
            }
        }
        assert forall|b: int, f: PartitionView| #[trigger] covers(before, b, f) implies covers(parts_view(kept@), b, f) by {
            let m = choose|m: int| 0 <= m < before.len() && (#[trigger] before[m]).body_width <= b && no_worse(before[m], f);
            assert(covers_upto(before, before.len() as int, b, f));
            if covers(kept_view, b, f) {
                let k = choose|k: int| 0 <= k < kept_view.len() && (#[trigger] kept_view[k]).body_width <= b && no_worse(kept_view[k], f);
                assert(parts_view(kept@)[k] == kept_view[k]);
            } else {
                assert(parts_view(kept@)[kept@.len() - 1].body_width <= b);
            }
        }
        assert(no_worse(cand, cand));
        assert(parts_view(kept@)[kept@.len() - 1].body_width <= cand.body_width);
        assert forall|k: int| 0 <= k < kept@.len() implies
            #[trigger] parts_view(kept@)[k] == cand
                || exists|m: int| 0 <= m < before.len() && #[trigger] before[m] == parts_view(kept@)[k] by {
            if k < kept@.len() - 1 {
                assert(parts_view(kept@)[k] == kept_view[k]);
                let m = origin[k];
                assert(before[m] == parts_view(kept@)[k]);
            }
        }
    }
    *candidates = kept;
}

/// `a * b`, held to `usize::MAX`.
fn saturating_mul(a: usize, b: usize) -> (product: usize)
    ensures
        product == sat(a * b),
{
    match a.checked_mul(b) {
        Some(product) => product,
        None => usize::MAX,
    }
}

/// Every partition in `cell` is a feasible partition into `used` columns of
/// the first `end` entries, with its costs accounted.
pub open spec fn cell_sound(pr: Problem, used: int, end: int, cell: Seq<PartitionView>) -> bool {
    forall|k: int| 0 <= k < cell.len() ==> feasible(pr, used, end, (#[trigger] cell[k]).ends) && accounted(pr, cell[k])
}

/// For every feasible partition into `used` columns of the first `end`
/// entries, `cell` holds one no wider.
pub open spec fn cell_complete(pr: Problem, used: int, end: int, cell: Seq<PartitionView>) -> bool {
    forall|ends: Seq<usize>| #[trigger] feasible(pr, used, end, ends) ==> dominated(cell, body_of(pr.widths, pr.label_width, ends))
}

/// Cells by their views.
pub open spec fn layer_view(layer: Seq<Vec<Partition>>) -> Seq<Seq<PartitionView>> {
    layer.map_values(|cell: Vec<Partition>| parts_view(cell@))
}

/// The problem `best_partition` solves for `columns` columns.
pub open spec fn problem(
    section_ids: Seq<usize>,
    entry_widths: Seq<(usize, usize)>,
    label_width: usize,
    row_limit: usize,
    max_body: int,
) -> Problem {
    Problem { ids: section_ids, widths: entry_widths, label_width: label_width as int, row_limit: row_limit as int, max_body }
}

/// Whether the entries can be cut into exactly `columns` columns that fit a
/// `pane_width`-cell card: one border cell each side and one between
/// columns, each column no taller than `row_limit`.
pub open spec fn partition_possible(
    section_ids: Seq<usize>,
    entry_widths: Seq<(usize, usize)>,
    label_width: usize,
    columns: usize,
    row_limit: usize,
    pane_width: usize,
) -> bool {
    &&& 1 <= columns <= section_ids.len()
    &&& section_ids.len() == entry_widths.len()
    &&& columns + 1 <= pane_width
    &&& exists|ends: Seq<usize>| #[trigger] feasible(
        problem(section_ids, entry_widths, label_width, row_limit, pane_width - columns - 1),
        columns as int,
        section_ids.len() as int,
        ends,
    )
}

/// Keeping the better of the best so far and partition `i` (the narrower
/// on a tie) keeps a best that none of the first `i + 1` ranks above.
proof fn lemma_selection_step(cells: Seq<PartitionView>, i: int, best: int, greater: bool)
    requires
        0 <= best < i < cells.len(),
        forall|j: int| 0 <= j < i ==> !ranks_above(#[trigger] cells[j], cells[best]),
        greater ==> !ranks_above(cells[best], cells[i]),
        !greater ==> !ranks_above(cells[i], cells[best]),
    ensures
        forall|j: int| 0 <= j < i + 1 ==> !ranks_above(#[trigger] cells[j], cells[if greater { i } else { best }]),
{
    assert forall|j: int| 0 <= j < i + 1 implies !ranks_above(#[trigger] cells[j], cells[if greater { i } else { best }]) by {
        lemma_rank_order(cells[j], cells[i], cells[best]);
        lemma_rank_order(cells[i], cells[best], cells[j]);
        lemma_rank_order(cells[best], cells[i], cells[j]);
        lemma_rank_order(cells[j], cells[best], cells[i]);
    }
}

/// When a cell covers every feasible partition and none of its
/// partitions ranks above `best`, no feasible partition whose squared
/// heights fit the machine ranks above it either.
proof fn lemma_best_ranks_first(pr: Problem, columns: int, entries: int, cells: Seq<PartitionView>, best: int)
    requires
        0 <= best < cells.len(),
        cell_optimal(pr, columns, entries, cells),
        forall|j: int| 0 <= j < cells.len() ==> !ranks_above(#[trigger] cells[j], cells[best]),
    ensures
        forall|ends: Seq<usize>| #[trigger] feasible(pr, columns, entries, ends) && unsaturated(pr.ids, ends)
            ==> !ranks_above(as_partition(pr, ends), cells[best]),
{
    assert forall|ends: Seq<usize>| #[trigger] feasible(pr, columns, entries, ends) && unsaturated(pr.ids, ends)
        implies !ranks_above(as_partition(pr, ends), cells[best]) by {
        let k = choose|k: int| 0 <= k < cells.len()
            && (#[trigger] cells[k]).body_width <= body_of(pr.widths, pr.label_width, ends)
            && no_worse(cells[k], as_partition(pr, ends));
        lemma_rank_order(cells[k], as_partition(pr, ends), cells[best]);
    }
}

/// The partition of a non-empty cell that none ranks above, the narrower
/// of two that lay the card out alike.
fn select_best(last: &Vec<Partition>) -> (best: usize)
    requires
        last@.len() > 0,
    ensures
        best < last@.len(),
        forall|j: int| 0 <= j < last@.len() ==> !ranks_above(#[trigger] parts_view(last@)[j], parts_view(last@)[best as int]),
{
    let ghost cells = parts_view(last@);
    let mut best: usize = 0;
    let mut i: usize = 1;
    proof {
        lemma_rank_order(cells[0], cells[0], cells[0]);
    }
    while i < last.len()
        invariant
            best < i <= last@.len(),
            cells == parts_view(last@),
            forall|j: int| 0 <= j < i ==> !ranks_above(#[trigger] cells[j], cells[best as int]),
        decreases last@.len() - i,
    {
        let left = &last[best];
        let right = &last[i];
        assert(cells[best as int] == left@ && cells[i as int] == right@);
        let greater = if better(left, right) {
            false
        } else if better(right, left) {
            true
        } else {
            left.body_width > right.body_width
        };
        proof {
            lemma_rank_order(cells[best as int], cells[i as int], cells[i as int]);
            lemma_selection_step(cells, i as int, best as int, greater);
        }
        if greater {
            best = i;
        }
        i = i + 1;
    }
    best
}

/// The best way to cut the entries into exactly `columns` columns: fewest
/// sections split, then the most even heights, then the latest ends, then
/// the narrowest; `None` when no cut fits.
#[verifier::rlimit(40)]
#[verifier::spinoff_prover]
pub fn best_partition(
    section_ids: &[usize],
    entry_widths: &[(usize, usize)],
    label_width: usize,
    columns: usize,
    row_limit: usize,
    pane_width: usize,
) -> (best: Option<Partition>)
    requires
        widths_fit(entry_widths@),
        section_ids@.len() <= usize::MAX / 2,
    ensures
        best is Some <==> partition_possible(section_ids@, entry_widths@, label_width, columns, row_limit, pane_width),
        best matches Some(p) ==> {
            let pr = problem(section_ids@, entry_widths@, label_width, row_limit, pane_width - columns - 1);
            &&& feasible(pr, columns as int, section_ids@.len() as int, p@.ends)
            &&& accounted(pr, p@)
            &&& forall|ends: Seq<usize>| #[trigger] feasible(pr, columns as int, section_ids@.len() as int, ends)
                && unsaturated(section_ids@, ends) ==> !ranks_above(as_partition(pr, ends), p@)
        },
{
    if columns == 0 || columns > section_ids.len() || section_ids.len() != entry_widths.len() {
        return None;
    }
    let reserved = columns - 1 + 2;
    if pane_width < reserved {
        return None;
    }
    let max_body = pane_width - reserved;
    let entries = section_ids.len();
    let ghost pr = problem(section_ids@, entry_widths@, label_width, row_limit, max_body as int);
    proof {
        assert forall|i: int| 0 <= i < entry_widths@.len() implies (#[trigger] entry_widths@[i]).0 <= usize::MAX / 4
            && entry_widths@[i].1 <= usize::MAX / 4 by {}
    }
    let mut prev = first_layer(section_ids, entry_widths, label_width, row_limit, max_body, Ghost(pr));
    let mut used: usize = 1;
    while used <= columns
        invariant
            1 <= used <= columns + 1,
            columns <= entries,
            entries == section_ids@.len(),
            entries == entry_widths@.len(),
            widths_fit(entry_widths@),
            section_ids@.len() <= usize::MAX / 2,
            pr == problem(section_ids@, entry_widths@, label_width, row_limit, max_body as int),
            max_body < usize::MAX,
            prev@.len() == entries + 1,
            forall|x: int| 0 <= x <= entries ==> cell_sound(pr, used - 1, x, #[trigger] layer_view(prev@)[x])
                && cell_complete(pr, used - 1, x, layer_view(prev@)[x]),
            forall|x: int| 0 <= x <= entries ==> cell_optimal(pr, used - 1, x, #[trigger] layer_view(prev@)[x]),
        decreases columns + 1 - used,
    {
        let layer = next_layer(section_ids, entry_widths, label_width, row_limit, max_body, &prev, used, Ghost(pr));
        prev = layer;
        used = used + 1;
    }
    let last = &prev[entries];
    let ghost final_cell = layer_view(prev@)[entries as int];
    assert(final_cell == parts_view(last@));
    if last.len() == 0 {
        proof {
            if partition_possible(section_ids@, entry_widths@, label_width, columns, row_limit, pane_width) {
                let ends = choose|ends: Seq<usize>| #[trigger] feasible(pr, columns as int, entries as int, ends);
                assert(dominated(final_cell, body_of(pr.widths, pr.label_width, ends)));
            }
        }
        return None;
    }
    let best = select_best(last);
    proof {
        lemma_best_ranks_first(pr, columns as int, entries as int, final_cell, best as int);
    }
    proof {
        assert(final_cell[best as int] == last@[best as int]@);
        assert(feasible(pr, columns as int, entries as int, final_cell[best as int].ends));
        assert(pr == problem(section_ids@, entry_widths@, label_width, row_limit, pane_width - columns - 1));
        assert(feasible(problem(section_ids@, entry_widths@, label_width, row_limit, pane_width - columns - 1),
            columns as int, section_ids@.len() as int, final_cell[best as int].ends));
    }
    Some(last[best].copy())
}

/// The partitions into no columns: only the empty one, of no entries.
fn first_layer(
    section_ids: &[usize],
    entry_widths: &[(usize, usize)],
    label_width: usize,
    row_limit: usize,
    max_body: usize,
    Ghost(pr): Ghost<Problem>,
) -> (prev: Vec<Vec<Partition>>)
    requires
        section_ids@.len() <= usize::MAX / 2,
        pr == problem(section_ids@, entry_widths@, label_width, row_limit, max_body as int),
    ensures
        prev@.len() == section_ids@.len() + 1,
        forall|x: int| 0 <= x <= section_ids@.len() ==> cell_sound(pr, 0, x, #[trigger] layer_view(prev@)[x])
            && cell_complete(pr, 0, x, layer_view(prev@)[x]),
        forall|x: int| 0 <= x <= section_ids@.len() ==> cell_optimal(pr, 0, x, #[trigger] layer_view(prev@)[x]),
{
    let entries = section_ids.len();
    let mut prev: Vec<Vec<Partition>> = Vec::new();
    let mut e: usize = 0;
    while e <= entries
        invariant
            e <= entries + 1,
            entries == section_ids@.len(),
            section_ids@.len() <= usize::MAX / 2,
            pr == problem(section_ids@, entry_widths@, label_width, row_limit, max_body as int),
            prev@.len() == e,
            forall|x: int| 0 <= x < e ==> cell_sound(pr, 0, x, #[trigger] layer_view(prev@)[x])
                && cell_complete(pr, 0, x, layer_view(prev@)[x]),
            forall|x: int| 0 <= x < e ==> cell_optimal(pr, 0, x, #[trigger] layer_view(prev@)[x]),
        decreases entries + 1 - e,
    {
        let mut cell: Vec<Partition> = Vec::new();
        if e == 0 {
            let empty = Partition { ends: Vec::new(), cuts: 0, squared_heights: 0, tallest: 0, body_width: 0 };
            proof {
                assert(empty@.ends =~= Seq::<usize>::empty());
                assert(feasible(pr, 0, 0, empty@.ends));
            }
            cell.push(empty);
        }
        let ghost before = layer_view(prev@);
        let ghost cell_view = parts_view(cell@);
        proof {
            assert forall|ends: Seq<usize>| #[trigger] feasible(pr, 0, e as int, ends)
                implies dominated(cell_view, body_of(pr.widths, pr.label_width, ends)) by {
                assert(ends =~= Seq::<usize>::empty());
                assert(cell_view[0].body_width == 0);
            }
            assert forall|ends: Seq<usize>| #[trigger] feasible(pr, 0, e as int, ends) && unsaturated(pr.ids, ends)
                implies covers(cell_view, body_of(pr.widths, pr.label_width, ends), as_partition(pr, ends)) by {
                assert(ends =~= Seq::<usize>::empty());
                assert(cell_view[0] == as_partition(pr, ends));
                assert(no_worse(cell_view[0], as_partition(pr, ends)));
            }
        }
        prev.push(cell);
        proof {
            assert forall|x: int| 0 <= x < e + 1 implies cell_sound(pr, 0, x, #[trigger] layer_view(prev@)[x])
                && cell_complete(pr, 0, x, layer_view(prev@)[x]) by {
                if x < e {
                    assert(layer_view(prev@)[x] == before[x]);
                } else {
                    assert(layer_view(prev@)[x] == cell_view);
                }
            }
            assert forall|x: int| 0 <= x < e + 1 implies cell_optimal(pr, 0, x, #[trigger] layer_view(prev@)[x]) by {
                if x < e {
                    assert(layer_view(prev@)[x] == before[x]);
                } else {
                    assert(layer_view(prev@)[x] == cell_view);
                }
            }
        }
        e = e + 1;
    }
    prev
}

/// The partitions into `used` columns of every prefix of the entries,
/// from those into `used - 1` columns.
fn next_layer(
    section_ids: &[usize],
    entry_widths: &[(usize, usize)],
    label_width: usize,
    row_limit: usize,
    max_body: usize,
    prev: &Vec<Vec<Partition>>,
    used: usize,
    Ghost(pr): Ghost<Problem>,
) -> (layer: Vec<Vec<Partition>>)
    requires
        1 <= used,
        max_body < usize::MAX,
        section_ids@.len() == entry_widths@.len(),
        widths_fit(entry_widths@),
        section_ids@.len() <= usize::MAX / 2,
        pr == problem(section_ids@, entry_widths@, label_width, row_limit, max_body as int),
        prev@.len() == section_ids@.len() + 1,
        forall|x: int| 0 <= x <= section_ids@.len() ==> cell_sound(pr, used - 1, x, #[trigger] layer_view(prev@)[x])
            && cell_complete(pr, used - 1, x, layer_view(prev@)[x]),
        forall|x: int| 0 <= x <= section_ids@.len() ==> cell_optimal(pr, used - 1, x, #[trigger] layer_view(prev@)[x]),
    ensures
        layer@.len() == section_ids@.len() + 1,
        forall|x: int| 0 <= x <= section_ids@.len() ==> cell_sound(pr, used as int, x, #[trigger] layer_view(layer@)[x])
            && cell_complete(pr, used as int, x, layer_view(layer@)[x]),
        forall|x: int| 0 <= x <= section_ids@.len() ==> cell_optimal(pr, used as int, x, #[trigger] layer_view(layer@)[x]),
{
    let entries = section_ids.len();
    let mut layer: Vec<Vec<Partition>> = Vec::new();
    let mut end: usize = 0;
    while end <= entries
        invariant
            1 <= used,
            entries == section_ids@.len(),
            entries == entry_widths@.len(),
            widths_fit(entry_widths@),
            section_ids@.len() <= usize::MAX / 2,
            pr == problem(section_ids@, entry_widths@, label_width, row_limit, max_body as int),
            max_body < usize::MAX,
            prev@.len() == entries + 1,
            forall|x: int| 0 <= x <= entries ==> cell_sound(pr, used - 1, x, #[trigger] layer_view(prev@)[x])
                && cell_complete(pr, used - 1, x, layer_view(prev@)[x]),
            forall|x: int| 0 <= x <= entries ==> cell_optimal(pr, used - 1, x, #[trigger] layer_view(prev@)[x]),
            end <= entries + 1,
            layer@.len() == end,
            forall|x: int| 0 <= x < end ==> cell_sound(pr, used as int, x, #[trigger] layer_view(layer@)[x])
                && cell_complete(pr, used as int, x, layer_view(layer@)[x]),
            forall|x: int| 0 <= x < end ==> cell_optimal(pr, used as int, x, #[trigger] layer_view(layer@)[x]),
        decreases entries + 1 - end,
    {
        let cell = build_cell(section_ids, entry_widths, label_width, row_limit, max_body, prev, used, end, Ghost(pr));
        let ghost before = layer_view(layer@);
        let ghost cell_view = parts_view(cell@);
        layer.push(cell);
        proof {
            assert forall|x: int| 0 <= x < end + 1 implies cell_sound(pr, used as int, x, #[trigger] layer_view(layer@)[x])
                && cell_complete(pr, used as int, x, layer_view(layer@)[x]) by {
                if x < end {
                    assert(layer_view(layer@)[x] == before[x]);
                } else {
                    assert(layer_view(layer@)[x] == cell_view);
                }
            }
            assert forall|x: int| 0 <= x < end + 1 implies cell_optimal(pr, used as int, x, #[trigger] layer_view(layer@)[x]) by {
                if x < end {
                    assert(layer_view(layer@)[x] == before[x]);
                } else {
                    assert(layer_view(layer@)[x] == cell_view);
                }
            }
        }
        end = end + 1;
    }
    layer
}

/// Add to `cell` the partition that extends `previous` with the column of
/// entries `start..end`, when it fits the body.
fn extend_into(
    cell: &mut Vec<Partition>,
    section_ids: &[usize],
    previous: &Partition,
    start: usize,
    end: usize,
    height: usize,
    segment_width: usize,
    max_body: usize,
    used: usize,
    Ghost(pr): Ghost<Problem>,
)
    requires
        1 <= used,
        start < end <= section_ids@.len(),
        pr.ids == section_ids@,
        pr.max_body == max_body,
        pr.label_width >= 0,
        max_body < usize::MAX,
        height == spec_segment_height(pr.ids, start as int, end as int),
        height <= pr.row_limit,
        segment_width == seg_width(pr.widths, start as int, end as int, pr.label_width),
        feasible(pr, used - 1, start as int, previous@.ends),
        accounted(pr, previous@),
        cell_sound(pr, used as int, end as int, parts_view(old(cell)@)),
    ensures
        cell_sound(pr, used as int, end as int, parts_view(final(cell)@)),
        forall|b: int| dominated(parts_view(old(cell)@), b) ==> dominated(parts_view(final(cell)@), b),
        previous@.body_width + segment_width <= max_body ==> dominated(parts_view(final(cell)@), previous@.body_width + segment_width),
        forall|b: int, f: PartitionView| #[trigger] covers(parts_view(old(cell)@), b, f)
            ==> covers(parts_view(final(cell)@), b, f),
        previous@.body_width + segment_width <= max_body ==> covers(
            parts_view(final(cell)@),
            previous@.body_width + segment_width,
            as_partition(pr, previous@.ends.push(end)),
        ),
{
    let body = previous.body_width.saturating_add(segment_width);
    if body > max_body {
        return;
    }
    let ghost old_cell = parts_view(cell@);
    let mut ends = previous.copy().ends;
    ends.push(end);
    proof {
        lemma_cuts_bounded(pr.ids, previous@.ends);
        lemma_extend_feasible(pr, used as int, start, end, previous@);
    }
    let cut = start > 0 && section_ids[start - 1] == section_ids[start];
    let squared = previous.squared_heights.saturating_add(saturating_mul(height, height));
    let tallest = if height > previous.tallest { height } else { previous.tallest };
    let candidate = Partition {
        ends,
        cuts: previous.cuts + if cut { 1 } else { 0 },
        squared_heights: squared,
        tallest,
        body_width: body,
    };
    let ghost cand = candidate@;
    assert(cand.ends == previous@.ends.push(end));
    assert(feasible(pr, used as int, end as int, cand.ends) && accounted(pr, cand));
    assert(cand == as_partition(pr, previous@.ends.push(end)));
    insert_candidate(cell, candidate);
    proof {
        assert forall|k: int| 0 <= k < parts_view(cell@).len() implies
            feasible(pr, used as int, end as int, (#[trigger] parts_view(cell@)[k]).ends)
                && accounted(pr, parts_view(cell@)[k]) by {
            if parts_view(cell@)[k] != cand {
                let m = choose|m: int| 0 <= m < old_cell.len() && #[trigger] old_cell[m] == parts_view(cell@)[k];
                assert(old_cell[m] == parts_view(cell@)[k]);
            }
        }
    }
}

/// Once every partition of the entries before `start` has been ended
/// with the column `start..end` where it fits, a partition whose last
/// column starts at `start` has one in the cell no wider and no worse.
proof fn lemma_column_start_covered(
    pr: Problem,
    used: int,
    start: usize,
    end: usize,
    segment_width: int,
    prev_view: Seq<PartitionView>,
    cell_view: Seq<PartitionView>,
)
    requires
        used >= 1,
        start < end,
        pr.label_width >= 0,
        segment_width == seg_width(pr.widths, start as int, end as int, pr.label_width),
        cell_sound(pr, used - 1, start as int, prev_view),
        cell_optimal(pr, used - 1, start as int, prev_view),
        forall|m: int| 0 <= m < prev_view.len() && (#[trigger] prev_view[m]).body_width + segment_width <= pr.max_body
            ==> covers(cell_view, prev_view[m].body_width + segment_width, as_partition(pr, prev_view[m].ends.push(end))),
    ensures
        forall|ends: Seq<usize>| #[trigger] feasible(pr, used, end as int, ends) && unsaturated(pr.ids, ends)
            && seg_start(ends, used - 1) == start
            ==> covers(cell_view, body_of(pr.widths, pr.label_width, ends), as_partition(pr, ends)),
{
    assert forall|ends: Seq<usize>| #[trigger] feasible(pr, used, end as int, ends) && unsaturated(pr.ids, ends)
        && seg_start(ends, used - 1) == start
        implies covers(cell_view, body_of(pr.widths, pr.label_width, ends), as_partition(pr, ends)) by {
        lemma_drop_last_feasible(pr, used, end as int, ends);
        let prefix = ends.drop_last();
        lemma_exact_squares(pr.ids, ends);
        assert(unsaturated(pr.ids, prefix));
        assert(feasible(pr, used - 1, start as int, prefix));
        let pp = as_partition(pr, prefix);
        assert(covers(prev_view, body_of(pr.widths, pr.label_width, prefix), pp));
        let m = choose|m: int| 0 <= m < prev_view.len()
            && (#[trigger] prev_view[m]).body_width <= body_of(pr.widths, pr.label_width, prefix)
            && no_worse(prev_view[m], pp);
        assert(prev_view[m].body_width + segment_width <= pr.max_body);
        let ext = as_partition(pr, prev_view[m].ends.push(end));
        assert(covers(cell_view, prev_view[m].body_width + segment_width, ext));
        assert(ends =~= prefix.push(end));
        lemma_extension_keeps_rank(pr, used, start, end, prev_view[m], prefix);
        let k = choose|k: int| 0 <= k < cell_view.len()
            && (#[trigger] cell_view[k]).body_width <= prev_view[m].body_width + segment_width
            && no_worse(cell_view[k], ext);
        lemma_rank_order(cell_view[k], ext, as_partition(pr, ends));
    }
}

/// The cell of partitions into `used` columns of the first `end` entries,
/// built from the cells of `used - 1` columns in `prev`.
#[verifier::rlimit(40)]
#[verifier::spinoff_prover]
fn build_cell(
    section_ids: &[usize],
    entry_widths: &[(usize, usize)],
    label_width: usize,
    row_limit: usize,
    max_body: usize,
    prev: &Vec<Vec<Partition>>,
    used: usize,
    end: usize,
    Ghost(pr): Ghost<Problem>,
) -> (cell: Vec<Partition>)
    requires
        1 <= used,
        max_body < usize::MAX,
        end <= section_ids@.len(),
        section_ids@.len() == entry_widths@.len(),
        widths_fit(entry_widths@),
        section_ids@.len() <= usize::MAX / 2,
        pr == problem(section_ids@, entry_widths@, label_width, row_limit, max_body as int),
        prev@.len() == section_ids@.len() + 1,
        forall|x: int| 0 <= x <= section_ids@.len() ==> cell_sound(pr, used - 1, x, #[trigger] layer_view(prev@)[x])
            && cell_complete(pr, used - 1, x, layer_view(prev@)[x]),
        forall|x: int| 0 <= x <= section_ids@.len() ==> cell_optimal(pr, used - 1, x, #[trigger] layer_view(prev@)[x]),
    ensures
        cell_sound(pr, used as int, end as int, parts_view(cell@)),
        cell_complete(pr, used as int, end as int, parts_view(cell@)),
        cell_optimal(pr, used as int, end as int, parts_view(cell@)),
{
    let mut cell: Vec<Partition> = Vec::new();
    if end < used {
        proof {
            assert forall|ends: Seq<usize>| #[trigger] feasible(pr, used as int, end as int, ends)
                implies dominated(parts_view(cell@), body_of(pr.widths, pr.label_width, ends)) by {
                lemma_ends_grow(pr.ids, ends, pr.row_limit, used - 1);
            }
            assert forall|ends: Seq<usize>| #[trigger] feasible(pr, used as int, end as int, ends) && unsaturated(pr.ids, ends)
                implies covers(parts_view(cell@), body_of(pr.widths, pr.label_width, ends), as_partition(pr, ends)) by {
                lemma_ends_grow(pr.ids, ends, pr.row_limit, used - 1);
            }
        }
        return cell;
    }
    let mut start: usize = used - 1;
    proof {
        assert forall|ends: Seq<usize>| #[trigger] feasible(pr, used as int, end as int, ends) && seg_start(ends, used - 1) < start
            implies dominated(parts_view(cell@), body_of(pr.widths, pr.label_width, ends)) by {
            lemma_ends_grow(pr.ids, ends, pr.row_limit, used - 1);
        }
        assert forall|ends: Seq<usize>| #[trigger] feasible(pr, used as int, end as int, ends) && unsaturated(pr.ids, ends)
            && seg_start(ends, used - 1) < start
            implies covers(parts_view(cell@), body_of(pr.widths, pr.label_width, ends), as_partition(pr, ends)) by {
            lemma_ends_grow(pr.ids, ends, pr.row_limit, used - 1);
        }
    }
    while start < end
        invariant
            1 <= used <= end <= section_ids@.len(),
            used - 1 <= start <= end,
            max_body < usize::MAX,
            section_ids@.len() == entry_widths@.len(),
            widths_fit(entry_widths@),
            section_ids@.len() <= usize::MAX / 2,
            pr == problem(section_ids@, entry_widths@, label_width, row_limit, max_body as int),
            prev@.len() == section_ids@.len() + 1,
            forall|x: int| 0 <= x <= section_ids@.len() ==> cell_sound(pr, used - 1, x, #[trigger] layer_view(prev@)[x])
                && cell_complete(pr, used - 1, x, layer_view(prev@)[x]),
            forall|x: int| 0 <= x <= section_ids@.len() ==> cell_optimal(pr, used - 1, x, #[trigger] layer_view(prev@)[x]),
            cell_sound(pr, used as int, end as int, parts_view(cell@)),
            forall|ends: Seq<usize>| #[trigger] feasible(pr, used as int, end as int, ends) && seg_start(ends, used - 1) < start
                ==> dominated(parts_view(cell@), body_of(pr.widths, pr.label_width, ends)),
            forall|ends: Seq<usize>| #[trigger] feasible(pr, used as int, end as int, ends) && unsaturated(pr.ids, ends)
                && seg_start(ends, used - 1) < start
                ==> covers(parts_view(cell@), body_of(pr.widths, pr.label_width, ends), as_partition(pr, ends)),
        decreases end - start,
    {
        let height = segment_height(section_ids, start, end);
        if height <= row_limit {
            let (key_width, column_label_width) = hint_column_dimensions(entry_widths, start, end, label_width);
            proof {
                lemma_dimensions_bounded(entry_widths@, start as int, end as int, label_width as int, (usize::MAX / 4) as int);
            }
            let segment_width = hint_column_width(key_width, column_label_width);
            let previous_cell = &prev[start];
            let ghost prev_view = layer_view(prev@)[start as int];
            assert(prev_view == parts_view(previous_cell@));
            let mut q: usize = 0;
            while q < previous_cell.len()
                invariant
                    1 <= used <= end <= section_ids@.len(),
                    used - 1 <= start < end,
                    height == spec_segment_height(section_ids@, start as int, end as int),
                    height <= row_limit,
                    segment_width == seg_width(entry_widths@, start as int, end as int, label_width as int),
                    section_ids@.len() == entry_widths@.len(),
                    pr == problem(section_ids@, entry_widths@, label_width, row_limit, max_body as int),
                    prev_view == parts_view(previous_cell@),
                    cell_sound(pr, used - 1, start as int, prev_view),
                    q <= previous_cell@.len(),
                    max_body < usize::MAX,
                    widths_fit(entry_widths@),
                    end <= section_ids@.len(),
                    cell_sound(pr, used as int, end as int, parts_view(cell@)),
                    forall|ends: Seq<usize>| #[trigger] feasible(pr, used as int, end as int, ends) && seg_start(ends, used - 1) < start
                        ==> dominated(parts_view(cell@), body_of(pr.widths, pr.label_width, ends)),
                    forall|m: int| 0 <= m < q && (#[trigger] prev_view[m]).body_width + segment_width <= max_body
                        ==> dominated(parts_view(cell@), prev_view[m].body_width + segment_width),
                    forall|ends: Seq<usize>| #[trigger] feasible(pr, used as int, end as int, ends) && unsaturated(pr.ids, ends)
                        && seg_start(ends, used - 1) < start
                        ==> covers(parts_view(cell@), body_of(pr.widths, pr.label_width, ends), as_partition(pr, ends)),
                    forall|m: int| 0 <= m < q && (#[trigger] prev_view[m]).body_width + segment_width <= max_body
                        ==> covers(parts_view(cell@), prev_view[m].body_width + segment_width,
                            as_partition(pr, prev_view[m].ends.push(end))),
                decreases previous_cell@.len() - q,
            {
                let previous = &previous_cell[q];
                assert(prev_view[q as int] == previous@);
                let ghost old_cell = parts_view(cell@);
                extend_into(&mut cell, section_ids, previous, start, end, height, segment_width, max_body, used, Ghost(pr));
                proof {
                    assert forall|ends: Seq<usize>| #[trigger] feasible(pr, used as int, end as int, ends) && seg_start(ends, used - 1) < start
                        implies dominated(parts_view(cell@), body_of(pr.widths, pr.label_width, ends)) by {
                        assert(dominated(old_cell, body_of(pr.widths, pr.label_width, ends)));
                    }
                    assert forall|m: int| 0 <= m < q + 1 && (#[trigger] prev_view[m]).body_width + segment_width <= max_body
                        implies dominated(parts_view(cell@), prev_view[m].body_width + segment_width) by {
                        if m < q {
                            assert(dominated(old_cell, prev_view[m].body_width + segment_width));
                        }
                    }
                    assert forall|ends: Seq<usize>| #[trigger] feasible(pr, used as int, end as int, ends) && unsaturated(pr.ids, ends)
                        && seg_start(ends, used - 1) < start
                        implies covers(parts_view(cell@), body_of(pr.widths, pr.label_width, ends), as_partition(pr, ends)) by {
                        assert(covers(old_cell, body_of(pr.widths, pr.label_width, ends), as_partition(pr, ends)));
                    }
                    assert forall|m: int| 0 <= m < q + 1 && (#[trigger] prev_view[m]).body_width + segment_width <= max_body
                        implies covers(parts_view(cell@), prev_view[m].body_width + segment_width,
                            as_partition(pr, prev_view[m].ends.push(end))) by {
                        if m < q {
                            assert(covers(old_cell, prev_view[m].body_width + segment_width,
                                as_partition(pr, prev_view[m].ends.push(end))));
                        }
                    }
                }
                q = q + 1;
            }
            proof {
                assert forall|ends: Seq<usize>| #[trigger] feasible(pr, used as int, end as int, ends) && seg_start(ends, used - 1) < start + 1
                    implies dominated(parts_view(cell@), body_of(pr.widths, pr.label_width, ends)) by {
                    if seg_start(ends, used - 1) == start {
                        lemma_drop_last_feasible(pr, used as int, end as int, ends);
                        let prefix = ends.drop_last();
                        assert(cell_complete(pr, used - 1, start as int, prev_view));
                        assert(feasible(pr, used - 1, start as int, prefix));
                        let m = choose|m: int| 0 <= m < prev_view.len() && (#[trigger] prev_view[m]).body_width <= body_of(pr.widths, pr.label_width, prefix);
                        assert(prev_view[m].body_width + segment_width <= max_body);
                    }
                }
                assert(cell_optimal(pr, used - 1, start as int, prev_view));
                lemma_column_start_covered(pr, used as int, start, end, segment_width as int, prev_view, parts_view(cell@));
                assert forall|ends: Seq<usize>| #[trigger] feasible(pr, used as int, end as int, ends) && unsaturated(pr.ids, ends)
                    && seg_start(ends, used - 1) < start + 1
                    implies covers(parts_view(cell@), body_of(pr.widths, pr.label_width, ends), as_partition(pr, ends)) by {
                }
            }
        } else {
            proof {
                assert forall|ends: Seq<usize>| #[trigger] feasible(pr, used as int, end as int, ends) && seg_start(ends, used - 1) < start + 1
                    implies dominated(parts_view(cell@), body_of(pr.widths, pr.label_width, ends)) by {
                    if seg_start(ends, used - 1) == start {
                        lemma_drop_last_feasible(pr, used as int, end as int, ends);
                    }
                }
                assert forall|ends: Seq<usize>| #[trigger] feasible(pr, used as int, end as int, ends) && unsaturated(pr.ids, ends)
                    && seg_start(ends, used - 1) < start + 1
                    implies covers(parts_view(cell@), body_of(pr.widths, pr.label_width, ends), as_partition(pr, ends)) by {
                    if seg_start(ends, used - 1) == start {
                        lemma_drop_last_feasible(pr, used as int, end as int, ends);
                    }
                }
            }
        }
        start = start + 1;
    }
    proof {
        assert forall|ends: Seq<usize>| #[trigger] feasible(pr, used as int, end as int, ends)
            implies dominated(parts_view(cell@), body_of(pr.widths, pr.label_width, ends)) by {
            let _ = ends[used - 1];
        }
        assert forall|ends: Seq<usize>| #[trigger] feasible(pr, used as int, end as int, ends) && unsaturated(pr.ids, ends)
            implies covers(parts_view(cell@), body_of(pr.widths, pr.label_width, ends), as_partition(pr, ends)) by {
            let _ = ends[used - 1];
        }
    }
    cell
}

/// A chosen layout for a hint card: the label width, the rows, where each
/// column ends, and what the cut costs.
pub struct HintPlan {
    pub label_width: usize,
    pub rows: usize,
    pub ends: Vec<usize>,
    pub cuts: usize,
    pub squared_heights: usize,
}

/// A hint plan as the contracts see it.
pub struct HintPlanView {
    pub label_width: int,
    pub rows: int,
    pub ends: Seq<usize>,
    pub cuts: int,
    pub squared_heights: int,
}

impl View for HintPlan {
    type V = HintPlanView;

    open spec fn view(&self) -> HintPlanView {
        HintPlanView {
            label_width: self.label_width as int,
            rows: self.rows as int,
            ends: self.ends@,
            cuts: self.cuts as int,
            squared_heights: self.squared_heights as int,
        }
    }
}

/// `plan` lays the entries out at its label width in as many columns as it
/// has ends, each no taller than `row_limit`, inside `pane_width` cells,
/// with its rows the tallest column and its costs accounted.
pub open spec fn plan_ok(
    ids: Seq<usize>,
    widths: Seq<(usize, usize)>,
    pane_width: usize,
    row_limit: usize,
    plan: HintPlanView,
) -> bool {
    let columns = plan.ends.len() as int;
    let pr = Problem {
        ids,
        widths,
        label_width: plan.label_width,
        row_limit: row_limit as int,
        max_body: pane_width - columns - 1,
    };
    &&& 1 <= columns
    &&& columns + 1 <= pane_width
    &&& feasible(pr, columns, ids.len() as int, plan.ends)
    &&& plan.rows == tallest_of(ids, plan.ends)
    &&& plan.cuts == cuts_of(ids, plan.ends)
    &&& plan.squared_heights == squares_of(ids, plan.ends)
}

/// Some number of columns lays the entries out at `label_width`.
pub open spec fn plan_exists(
    ids: Seq<usize>,
    widths: Seq<(usize, usize)>,
    label_width: usize,
    pane_width: usize,
    row_limit: usize,
) -> bool {
    exists|columns: usize| 1 <= columns <= ids.len()
        && #[trigger] partition_possible(ids, widths, label_width, columns, row_limit, pane_width)
}

/// Whether `candidate` is a better plan than `current`: fewer sections
/// split, then fewer columns, then more even heights, then later ends.
pub open spec fn spec_better_plan(candidate: HintPlanView, current: HintPlanView) -> bool {
    candidate.cuts < current.cuts || (candidate.cuts == current.cuts && (candidate.ends.len()
        < current.ends.len() || (candidate.ends.len() == current.ends.len() && (
    candidate.squared_heights < current.squared_heights || (candidate.squared_heights
        == current.squared_heights && lex_greater(candidate.ends, current.ends))))))
}

/// Whether `candidate` is a better plan than `current`.
pub fn better_hint_plan(candidate: &HintPlan, current: &HintPlan) -> (better: bool)
    ensures
        better == spec_better_plan(candidate@, current@),
{
    candidate.cuts < current.cuts || (candidate.cuts == current.cuts && (candidate.ends.len()
        < current.ends.len() || (candidate.ends.len() == current.ends.len() && (
    candidate.squared_heights < current.squared_heights || (candidate.squared_heights
        == current.squared_heights && ends_greater(&candidate.ends, &current.ends))))))
}

/// Ranking plans is a strict total order on layouts.
proof fn lemma_plan_order(a: HintPlanView, b: HintPlanView, c: HintPlanView)
    ensures
        spec_better_plan(a, b) ==> !spec_better_plan(b, a),
        spec_better_plan(a, b) && spec_better_plan(b, c) ==> spec_better_plan(a, c),
        spec_better_plan(c, a) && !spec_better_plan(b, a) ==> spec_better_plan(c, b),
{
    lemma_lex_order(a.ends, b.ends, c.ends);
    lemma_lex_order(c.ends, a.ends, b.ends);
    lemma_lex_order(a.ends, b.ends, b.ends);
    lemma_lex_irreflexive(a.ends);
}

/// A plan of `columns` columns at `label_width` that none of that many
/// columns ranks above is one no plan of that many columns betters.
proof fn lemma_best_cut_is_best_plan(
    ids: Seq<usize>,
    widths: Seq<(usize, usize)>,
    label_width: usize,
    pane_width: usize,
    row_limit: usize,
    columns: usize,
    best: PartitionView,
    q: HintPlanView,
)
    requires
        ({
            let pr = problem(ids, widths, label_width, row_limit, pane_width - columns - 1);
            forall|ends: Seq<usize>| #[trigger] feasible(pr, columns as int, ids.len() as int, ends)
                && unsaturated(ids, ends) ==> !ranks_above(as_partition(pr, ends), best)
        }),
        q.label_width == label_width,
        q.ends.len() == columns,
        plan_ok(ids, widths, pane_width, row_limit, q),
        unsaturated(ids, q.ends),
    ensures
        !spec_better_plan(q, HintPlanView {
            label_width: label_width as int,
            rows: best.tallest,
            ends: best.ends,
            cuts: best.cuts,
            squared_heights: best.squared_heights,
        }) || best.ends.len() != columns,
{
    let pr = problem(ids, widths, label_width, row_limit, pane_width - columns - 1);
    assert(feasible(pr, columns as int, ids.len() as int, q.ends));
    assert(!ranks_above(as_partition(pr, q.ends), best));
}

/// The best layout at `label_width`: over every column count that fits,
/// the best cut; `None` when no column count fits.
#[verifier::rlimit(60)]
#[verifier::spinoff_prover]
pub fn hint_plan_at_label_width(
    section_ids: &[usize],
    entry_widths: &[(usize, usize)],
    label_width: usize,
    pane_width: usize,
    row_limit: usize,
) -> (plan: Option<HintPlan>)
    requires
        widths_fit(entry_widths@),
        section_ids@.len() <= usize::MAX / 2,
    ensures
        plan is Some <==> plan_exists(section_ids@, entry_widths@, label_width, pane_width, row_limit),
        plan matches Some(p) ==> p@.label_width == label_width
            && plan_ok(section_ids@, entry_widths@, pane_width, row_limit, p@),
        plan matches Some(p) ==> forall|q: HintPlanView| q.label_width == label_width
            && #[trigger] plan_ok(section_ids@, entry_widths@, pane_width, row_limit, q)
            && unsaturated(section_ids@, q.ends) ==> !spec_better_plan(q, p@),
{
    let mut best: Option<HintPlan> = None;
    let mut columns: usize = 1;
    while columns <= section_ids.len()
        invariant
            1 <= columns <= section_ids@.len() + 1,
            widths_fit(entry_widths@),
            section_ids@.len() <= usize::MAX / 2,
            best is Some <==> exists|c: usize| 1 <= c < columns
                && #[trigger] partition_possible(section_ids@, entry_widths@, label_width, c, row_limit, pane_width),
            best matches Some(p) ==> p@.label_width == label_width
                && plan_ok(section_ids@, entry_widths@, pane_width, row_limit, p@),
            best matches Some(p) ==> forall|q: HintPlanView| q.label_width == label_width
                && #[trigger] plan_ok(section_ids@, entry_widths@, pane_width, row_limit, q)
                && unsaturated(section_ids@, q.ends) && q.ends.len() < columns ==> !spec_better_plan(q, p@),
        decreases section_ids@.len() + 1 - columns,
    {
        let ghost old_best = best;
        let found = best_partition(section_ids, entry_widths, label_width, columns, row_limit, pane_width);
        match found {
            Some(partition) => {
                let ghost partition_view = partition@;
                let candidate = HintPlan {
                    label_width,
                    rows: partition.tallest,
                    ends: partition.ends,
                    cuts: partition.cuts,
                    squared_heights: partition.squared_heights,
                };
                proof {
                    assert(candidate@.ends.len() == columns);
                }
                let replace = match &best {
                    None => true,
                    Some(current) => better_hint_plan(&candidate, current),
                };
                let ghost cand = candidate@;
                proof {
                    assert forall|q: HintPlanView| q.label_width == label_width
                        && #[trigger] plan_ok(section_ids@, entry_widths@, pane_width, row_limit, q)
                        && unsaturated(section_ids@, q.ends) && q.ends.len() == columns
                        implies !spec_better_plan(q, cand) by {
                        lemma_best_cut_is_best_plan(section_ids@, entry_widths@, label_width, pane_width, row_limit,
                            columns, partition_view, q);
                    }
                    assert(partition_possible(section_ids@, entry_widths@, label_width, columns, row_limit, pane_width));
                    assert(section_ids@.len() == entry_widths@.len());
                    if let Some(current) = old_best {
                        assert forall|q: HintPlanView| q.label_width == label_width
                            && #[trigger] plan_ok(section_ids@, entry_widths@, pane_width, row_limit, q)
                            && unsaturated(section_ids@, q.ends) && q.ends.len() < columns + 1
                            implies !spec_better_plan(q, if replace { cand } else { current@ }) by {
                            lemma_plan_order(q, cand, current@);
                            lemma_plan_order(current@, cand, q);
                        }
                    } else {
                        assert forall|q: HintPlanView| q.label_width == label_width
                            && #[trigger] plan_ok(section_ids@, entry_widths@, pane_width, row_limit, q)
                            && unsaturated(section_ids@, q.ends) && q.ends.len() < columns + 1
                            implies !spec_better_plan(q, cand) by {
                            if q.ends.len() < columns {
                                let c = q.ends.len() as usize;
                                let pr = problem(section_ids@, entry_widths@, label_width, row_limit, pane_width - c - 1);
                                assert(feasible(pr, c as int, section_ids@.len() as int, q.ends));
                                assert(partition_possible(section_ids@, entry_widths@, label_width, c, row_limit, pane_width));
                            }
                        }
                    }
                }
                if replace {
                    best = Some(candidate);
                }
            },
            None => {
                proof {
                    if let Some(current) = old_best {
                        let c0 = choose|c: usize| 1 <= c < columns
                            && #[trigger] partition_possible(section_ids@, entry_widths@, label_width, c, row_limit, pane_width);
                        assert(section_ids@.len() == entry_widths@.len());
                        assert forall|q: HintPlanView| q.label_width == label_width
                            && #[trigger] plan_ok(section_ids@, entry_widths@, pane_width, row_limit, q)
                            && unsaturated(section_ids@, q.ends) && q.ends.len() < columns + 1
                            implies !spec_better_plan(q, current@) by {
                            if q.ends.len() == columns {
                                let pr = problem(section_ids@, entry_widths@, label_width, row_limit, pane_width - columns - 1);
                                assert(feasible(pr, columns as int, section_ids@.len() as int, q.ends));
                                assert(partition_possible(section_ids@, entry_widths@, label_width, columns, row_limit, pane_width));
                            }
                        }
                    }
                }
            },
        }
        proof {
            assert forall|c: usize| 1 <= c < columns + 1
                && #[trigger] partition_possible(section_ids@, entry_widths@, label_width, c, row_limit, pane_width)
                implies best is Some by {}
        }
        columns = columns + 1;
    }
    proof {
        if best is Some {
            let p = best->0;
            assert forall|q: HintPlanView| q.label_width == label_width
                && #[trigger] plan_ok(section_ids@, entry_widths@, pane_width, row_limit, q)
                && unsaturated(section_ids@, q.ends) implies !spec_better_plan(q, p@) by {
                lemma_ends_grow(section_ids@, q.ends, row_limit as int, q.ends.len() - 1);
            }
        }
    }
    best
}

/// No layout of the entries at `plan`'s label width in `row_limit` rows
/// ranks above `plan`, among those whose squared heights fit the machine.
pub open spec fn best_at_width(
    ids: Seq<usize>,
    widths: Seq<(usize, usize)>,
    pane_width: usize,
    row_limit: usize,
    plan: HintPlanView,
) -> bool {
    forall|q: HintPlanView| q.label_width == plan.label_width
        && #[trigger] plan_ok(ids, widths, pane_width, row_limit, q)
        && unsaturated(ids, q.ends) ==> !spec_better_plan(q, plan)
}

/// Some label width in `low..=high` has a layout.
pub open spec fn some_width_fits(
    ids: Seq<usize>,
    widths: Seq<(usize, usize)>,
    low: int,
    high: int,
    pane_width: usize,
    row_limit: usize,
) -> bool {
    exists|w: usize| low <= w <= high && #[trigger] plan_exists(ids, widths, w, pane_width, row_limit)
}

/// The widest label width between `minimum_label_width` and
/// `full_label_width` that has a layout, and that layout; `None` when there
/// are no entries, no rows, or no such width.
pub fn hint_plan(
    section_ids: &[usize],
    entry_widths: &[(usize, usize)],
    full_label_width: usize,
    minimum_label_width: usize,
    pane_width: usize,
    row_limit: usize,
) -> (plan: Option<HintPlan>)
    requires
        widths_fit(entry_widths@),
        section_ids@.len() <= usize::MAX / 2,
    ensures
        plan is Some <==> section_ids@.len() > 0 && row_limit > 0
            && some_width_fits(section_ids@, entry_widths@, minimum_label_width as int, full_label_width as int, pane_width, row_limit),
        plan matches Some(p) ==> {
            &&& minimum_label_width <= p@.label_width <= full_label_width
            &&& plan_ok(section_ids@, entry_widths@, pane_width, row_limit, p@)
            &&& !some_width_fits(section_ids@, entry_widths@, p@.label_width + 1, full_label_width as int, pane_width, row_limit)
            &&& best_at_width(section_ids@, entry_widths@, pane_width, row_limit, p@)
        },
{
    if section_ids.len() == 0 || row_limit == 0 {
        return None;
    }
    if minimum_label_width > full_label_width {
        return None;
    }
    let mut label_width = full_label_width;
    loop
        invariant
            section_ids@.len() > 0,
            row_limit > 0,
            minimum_label_width <= label_width <= full_label_width,
            widths_fit(entry_widths@),
            section_ids@.len() <= usize::MAX / 2,
            !some_width_fits(section_ids@, entry_widths@, label_width + 1, full_label_width as int, pane_width, row_limit),
        decreases label_width,
    {
        match hint_plan_at_label_width(section_ids, entry_widths, label_width, pane_width, row_limit) {
            Some(plan) => {
                proof {
                    assert(plan_exists(section_ids@, entry_widths@, label_width, pane_width, row_limit));
                    assert(some_width_fits(section_ids@, entry_widths@, minimum_label_width as int, full_label_width as int, pane_width, row_limit));
                }
                return Some(plan);
            },
            None => {},
        }
        proof {
            assert forall|w: usize| label_width <= w <= full_label_width
                implies !#[trigger] plan_exists(section_ids@, entry_widths@, w, pane_width, row_limit) by {
                if w > label_width {
                    assert(!some_width_fits(section_ids@, entry_widths@, label_width + 1, full_label_width as int, pane_width, row_limit));
                }
            }
        }
        if label_width == minimum_label_width {
            return None;
        }
        label_width = label_width - 1;
    }
}

/// The layout the responsive card takes in `available` rows: the widest
/// comfortable label width (at most `MIN_HINT_LABEL_WIDTH`, at most the
/// widest label) that fits the preferred rows, else all rows; failing
/// both, the widest narrower width that fits either, the preferred rows
/// first; at that width and row count, the best layout.
pub open spec fn responsive_choice(
    ids: Seq<usize>,
    ws: Seq<(usize, usize)>,
    full_label_width: usize,
    pane_width: usize,
    available_rows: usize,
    p: HintPlanView,
) -> bool {
    let preferred = if available_rows <= PREFERRED_HINT_ROWS { available_rows } else { PREFERRED_HINT_ROWS };
    let comfortable = if full_label_width <= MIN_HINT_LABEL_WIDTH { full_label_width } else { MIN_HINT_LABEL_WIDTH };
    let w = p.label_width;
    &&& w <= full_label_width
    &&& if some_width_fits(ids, ws, comfortable as int, full_label_width as int, pane_width, preferred) {
        &&& comfortable <= w
        &&& plan_ok(ids, ws, pane_width, preferred, p)
        &&& !some_width_fits(ids, ws, w + 1, full_label_width as int, pane_width, preferred)
        &&& best_at_width(ids, ws, pane_width, preferred, p)
    } else if some_width_fits(ids, ws, comfortable as int, full_label_width as int, pane_width, available_rows) {
        &&& comfortable <= w
        &&& plan_ok(ids, ws, pane_width, available_rows, p)
        &&& !some_width_fits(ids, ws, w + 1, full_label_width as int, pane_width, available_rows)
        &&& best_at_width(ids, ws, pane_width, available_rows, p)
    } else {
        &&& w < comfortable
        &&& !some_width_fits(ids, ws, w + 1, full_label_width as int, pane_width, preferred)
        &&& !some_width_fits(ids, ws, w + 1, full_label_width as int, pane_width, available_rows)
        &&& if plan_exists(ids, ws, w as usize, pane_width, preferred) {
            plan_ok(ids, ws, pane_width, preferred, p) && best_at_width(ids, ws, pane_width, preferred, p)
        } else {
            plan_ok(ids, ws, pane_width, available_rows, p) && best_at_width(ids, ws, pane_width, available_rows, p)
        }
    }
}

/// Preferred body height for a compact which-key card.
pub const PREFERRED_HINT_ROWS: usize = 8;

/// Smallest comfortable label column before the card grows vertically.
pub const MIN_HINT_LABEL_WIDTH: usize = 12;

/// The layout for a pending-prefix card: comfortable labels in at most
/// the preferred rows, else in all the rows there are, else ever narrower
/// labels, each in the preferred rows before all rows; `None` when no
/// label width fits.
#[verifier::rlimit(40)]
#[verifier::spinoff_prover]
pub fn responsive_hint_plan(
    section_ids: &[usize],
    entry_widths: &[(usize, usize)],
    full_label_width: usize,
    pane_width: usize,
    available_rows: usize,
) -> (plan: Option<HintPlan>)
    requires
        widths_fit(entry_widths@),
        section_ids@.len() <= usize::MAX / 2,
    ensures
        ({
            let preferred = if available_rows <= PREFERRED_HINT_ROWS { available_rows } else { PREFERRED_HINT_ROWS };
            &&& plan is Some <==> (some_width_fits(section_ids@, entry_widths@, 0, full_label_width as int, pane_width, preferred)
                || some_width_fits(section_ids@, entry_widths@, 0, full_label_width as int, pane_width, available_rows))
            &&& plan matches Some(p) ==> responsive_choice(section_ids@, entry_widths@, full_label_width, pane_width, available_rows, p@)
        }),
{
    let preferred_rows = if available_rows <= PREFERRED_HINT_ROWS { available_rows } else { PREFERRED_HINT_ROWS };
    let comfortable = if full_label_width <= MIN_HINT_LABEL_WIDTH { full_label_width } else { MIN_HINT_LABEL_WIDTH };
    proof {
        lemma_no_plan_without_entries_or_rows(section_ids@, entry_widths@, full_label_width, pane_width, preferred_rows);
        lemma_no_plan_without_entries_or_rows(section_ids@, entry_widths@, full_label_width, pane_width, available_rows);
    }
    match hint_plan(section_ids, entry_widths, full_label_width, comfortable, pane_width, preferred_rows) {
        Some(plan) => {
            proof {
                let w = choose|w: usize| comfortable <= w <= full_label_width
                    && #[trigger] plan_exists(section_ids@, entry_widths@, w, pane_width, preferred_rows);
                assert(some_width_fits(section_ids@, entry_widths@, 0, full_label_width as int, pane_width, preferred_rows));
            }
            return Some(plan);
        },
        None => {},
    }
    match hint_plan(section_ids, entry_widths, full_label_width, comfortable, pane_width, available_rows) {
        Some(plan) => {
            proof {
                let w = choose|w: usize| comfortable <= w <= full_label_width
                    && #[trigger] plan_exists(section_ids@, entry_widths@, w, pane_width, available_rows);
                assert(some_width_fits(section_ids@, entry_widths@, 0, full_label_width as int, pane_width, available_rows));
            }
            return Some(plan);
        },
        None => {},
    }
    let mut label_width = comfortable;
    while label_width > 0
        invariant
            label_width <= comfortable <= full_label_width,
            comfortable == if full_label_width <= MIN_HINT_LABEL_WIDTH { full_label_width } else { MIN_HINT_LABEL_WIDTH },
            preferred_rows == if available_rows <= PREFERRED_HINT_ROWS { available_rows } else { PREFERRED_HINT_ROWS },
            widths_fit(entry_widths@),
            section_ids@.len() <= usize::MAX / 2,
            !some_width_fits(section_ids@, entry_widths@, label_width as int, full_label_width as int, pane_width, preferred_rows),
            !some_width_fits(section_ids@, entry_widths@, label_width as int, full_label_width as int, pane_width, available_rows),
        decreases label_width,
    {
        let width = label_width - 1;
        match hint_plan_at_label_width(section_ids, entry_widths, width, pane_width, preferred_rows) {
            Some(plan) => {
                proof {
                    assert(plan_exists(section_ids@, entry_widths@, width, pane_width, preferred_rows));
                    assert(some_width_fits(section_ids@, entry_widths@, 0, full_label_width as int, pane_width, preferred_rows));
                    if some_width_fits(section_ids@, entry_widths@, comfortable as int, full_label_width as int, pane_width, preferred_rows) {
                        lemma_fits_in_wider_range(section_ids@, entry_widths@, label_width as int, comfortable as int,
                            full_label_width as int, pane_width, preferred_rows);
                    }
                    if some_width_fits(section_ids@, entry_widths@, comfortable as int, full_label_width as int, pane_width, available_rows) {
                        lemma_fits_in_wider_range(section_ids@, entry_widths@, label_width as int, comfortable as int,
                            full_label_width as int, pane_width, available_rows);
                    }
                }
                return Some(plan);
            },
            None => {},
        }
        match hint_plan_at_label_width(section_ids, entry_widths, width, pane_width, available_rows) {
            Some(plan) => {
                proof {
                    assert(plan_exists(section_ids@, entry_widths@, width, pane_width, available_rows));
                    assert(some_width_fits(section_ids@, entry_widths@, 0, full_label_width as int, pane_width, available_rows));
                    assert(!plan_exists(section_ids@, entry_widths@, width, pane_width, preferred_rows));
                    if some_width_fits(section_ids@, entry_widths@, comfortable as int, full_label_width as int, pane_width, preferred_rows) {
                        lemma_fits_in_wider_range(section_ids@, entry_widths@, label_width as int, comfortable as int,
                            full_label_width as int, pane_width, preferred_rows);
                    }
                    if some_width_fits(section_ids@, entry_widths@, comfortable as int, full_label_width as int, pane_width, available_rows) {
                        lemma_fits_in_wider_range(section_ids@, entry_widths@, label_width as int, comfortable as int,
                            full_label_width as int, pane_width, available_rows);
                    }
                }
                return Some(plan);
            },
            None => {},
        }
        proof {
            assert forall|w: usize| width <= w <= full_label_width
                implies !#[trigger] plan_exists(section_ids@, entry_widths@, w, pane_width, preferred_rows) by {
                if w > width {
                    assert(!some_width_fits(section_ids@, entry_widths@, label_width as int, full_label_width as int, pane_width, preferred_rows));
                }
            }
            assert forall|w: usize| width <= w <= full_label_width
                implies !#[trigger] plan_exists(section_ids@, entry_widths@, w, pane_width, available_rows) by {
                if w > width {
                    assert(!some_width_fits(section_ids@, entry_widths@, label_width as int, full_label_width as int, pane_width, available_rows));
                }
            }
        }
        label_width = width;
    }
    None
}

/// A width that fits in a narrower range fits in a wider one.
proof fn lemma_fits_in_wider_range(
    ids: Seq<usize>,
    widths: Seq<(usize, usize)>,
    low: int,
    inner: int,
    high: int,
    pane_width: usize,
    row_limit: usize,
)
    requires
        low <= inner,
        some_width_fits(ids, widths, inner, high, pane_width, row_limit),
    ensures
        some_width_fits(ids, widths, low, high, pane_width, row_limit),
{
    let w = choose|w: usize| inner <= w <= high && #[trigger] plan_exists(ids, widths, w, pane_width, row_limit);
    assert(low <= w <= high && plan_exists(ids, widths, w, pane_width, row_limit));
}

/// Without entries or without rows there is no layout at any label width.
proof fn lemma_no_plan_without_entries_or_rows(
    ids: Seq<usize>,
    widths: Seq<(usize, usize)>,
    full_label_width: usize,
    pane_width: usize,
    row_limit: usize,
)
    ensures
        ids.len() == 0 || row_limit == 0 ==> !some_width_fits(ids, widths, 0, full_label_width as int, pane_width, row_limit),
{
    if ids.len() == 0 || row_limit == 0 {
        assert forall|w: usize| 0 <= w <= full_label_width implies !#[trigger] plan_exists(ids, widths, w, pane_width, row_limit) by {
            assert forall|c: usize| 1 <= c <= ids.len() implies !#[trigger] partition_possible(ids, widths, w, c, row_limit, pane_width) by {
                if partition_possible(ids, widths, w, c, row_limit, pane_width) {
                    let pr = problem(ids, widths, w, row_limit, pane_width - c - 1);
                    let ends = choose|ends: Seq<usize>| #[trigger] feasible(pr, c as int, ids.len() as int, ends);
                    let _ = ends[0];
                    lemma_segment_height_positive(ids, 0, ends[0] as int);
                }
            }
        }
    }
}

proof fn lemma_segment_height_positive(ids: Seq<usize>, start: int, end: int)
    requires
        start < end,
    ensures
        spec_segment_height(ids, start, end) >= 1,
{
    lemma_breaks_bounded(ids, start, end);
}

/// One drawn row of a hint column.
#[derive(Debug, Clone, Copy, PartialEq, Eq, Structural)]
pub enum HintCell {
    /// The entry with this index in the card's entries.
    Entry(usize),
    /// A rule between two sections.
    Rule,
    /// Padding below a short column.
    Empty,
}

/// One column of a hint card.
pub struct HintColumn {
    pub width: usize,
    pub key_width: usize,
    pub label_width: usize,
    pub cells: Vec<HintCell>,
}

/// A hint column as the contracts see it.
pub struct HintColumnView {
    pub width: int,
    pub key_width: int,
    pub label_width: int,
    pub cells: Seq<HintCell>,
}

impl View for HintColumn {
    type V = HintColumnView;

    open spec fn view(&self) -> HintColumnView {
        HintColumnView {
            width: self.width as int,
            key_width: self.key_width as int,
            label_width: self.label_width as int,
            cells: self.cells@,
        }
    }
}

/// Columns by their views.
pub open spec fn columns_view(columns: Seq<HintColumn>) -> Seq<HintColumnView> {
    columns.map_values(|c: HintColumn| c@)
}

/// The columns' widths added up.
pub open spec fn total_width(columns: Seq<HintColumnView>) -> int
    decreases columns.len(),
{
    if columns.len() == 0 { 0 } else { total_width(columns.drop_last()) + columns.last().width }
}

/// The cells a card takes: its columns, a rule between neighbours, and a
/// border each side.
pub open spec fn spec_hint_box_width(columns: Seq<HintColumnView>) -> int {
    sat(sat(total_width(columns) + (if columns.len() > 0 { columns.len() - 1 } else { 0 })) + 2)
}

/// The cells a card takes.
pub fn hint_box_width(columns: &[HintColumn]) -> (width: usize)
    requires
        total_width(columns_view(columns@)) <= usize::MAX,
    ensures
        width == spec_hint_box_width(columns_view(columns@)),
{
    let ghost cols = columns_view(columns@);
    let mut total: usize = 0;
    let mut i: usize = 0;
    while i < columns.len()
        invariant
            cols == columns_view(columns@),
            total_width(cols) <= usize::MAX,
            i <= columns@.len(),
            total == total_width(cols.take(i as int)),
        decreases columns@.len() - i,
    {
        proof {
            assert(cols.take(i as int + 1).drop_last() =~= cols.take(i as int));
            lemma_total_width_prefix(cols, i as int + 1);
        }
        total = total + columns[i].width;
        i = i + 1;
    }
    assert(cols.take(columns@.len() as int) =~= cols);
    total.saturating_add(columns.len().saturating_sub(1)).saturating_add(2)
}

proof fn lemma_total_width_prefix(cols: Seq<HintColumnView>, n: int)
    requires
        0 <= n <= cols.len(),
        forall|k: int| 0 <= k < cols.len() ==> (#[trigger] cols[k]).width >= 0,
    ensures
        0 <= total_width(cols.take(n)) <= total_width(cols),
    decreases cols.len(),
{
    if cols.len() > 0 {
        if n == cols.len() {
            assert(cols.take(n) =~= cols);
            lemma_total_width_prefix(cols.drop_last(), n - 1);
            assert(cols.drop_last().take(n - 1) =~= cols.drop_last());
        } else {
            lemma_total_width_prefix(cols.drop_last(), n);
            assert(cols.drop_last().take(n) =~= cols.take(n));
        }
    }
}

/// Responsive geometry for a pending-prefix hint card. Drawing and
/// hit-testing share it.
pub struct HintGrid {
    pub x: usize,
    pub y: usize,
    pub width: usize,
    pub height: usize,
    pub rows: usize,
    pub columns: Vec<HintColumn>,
    pub insufficient_space: bool,
}

/// A hint grid as the contracts see it.
pub struct HintGridView {
    pub x: int,
    pub y: int,
    pub width: int,
    pub height: int,
    pub rows: int,
    pub columns: Seq<HintColumnView>,
    pub insufficient_space: bool,
}

impl View for HintGrid {
    type V = HintGridView;

    open spec fn view(&self) -> HintGridView {
        HintGridView {
            x: self.x as int,
            y: self.y as int,
            width: self.width as int,
            height: self.height as int,
            rows: self.rows as int,
            columns: columns_view(self.columns@),
            insufficient_space: self.insufficient_space,
        }
    }
}

/// Where column `column` of the card starts: after the left border and
/// each earlier column and its rule.
pub open spec fn spec_column_x(g: HintGridView, column: int) -> int {
    g.x + 1 + total_width(g.columns.take(column)) + column
}

/// A grid's extents fit the machine's integers.
pub open spec fn hint_grid_fits(g: HintGridView) -> bool {
    &&& g.x + g.width <= usize::MAX
    &&& g.y + g.height + 1 <= usize::MAX
    &&& g.x + 1 + total_width(g.columns) + g.columns.len() <= usize::MAX
    &&& forall|k: int| 0 <= k < g.columns.len() ==> (#[trigger] g.columns[k]).width >= 0
}

/// The entry drawn at a cell: the entry cell at that body row of the first
/// column whose cells span the cell's column.
pub open spec fn spec_hint_entry_at(g: HintGridView, column: int, row: int) -> Option<int> {
    if row < g.y + 1 || row - (g.y + 1) >= g.rows {
        None
    } else if exists|k: int| hint_hit(g, column, row, k) {
        match g.columns[choose|k: int| hint_hit(g, column, row, k)].cells[row - (g.y + 1)] {
            HintCell::Entry(e) => Some(e as int),
            _ => None,
        }
    } else {
        None
    }
}

/// Column `k` is the first whose span holds `column` and that has an entry
/// cell at the body row of `row`.
pub open spec fn hint_hit(g: HintGridView, column: int, row: int, k: int) -> bool {
    &&& column_holds(g, column, row, k)
    &&& forall|m: int| 0 <= m < k ==> !#[trigger] column_holds(g, column, row, m)
}

/// Column `k` spans `column` and has an entry cell at the body row of `row`.
pub open spec fn column_holds(g: HintGridView, column: int, row: int, k: int) -> bool {
    &&& 0 <= k < g.columns.len()
    &&& spec_column_x(g, k) <= column < spec_column_x(g, k) + g.columns[k].width
    &&& 0 <= row - (g.y + 1) < g.columns[k].cells.len()
    &&& g.columns[k].cells[row - (g.y + 1)] is Entry
}

impl HintGrid {
    /// Whether the cell is inside the card, border included.
    pub fn contains(&self, column: usize, row: usize) -> (inside: bool)
        requires
            hint_grid_fits(self@),
        ensures
            inside == (column >= self.x && column < self.x + self.width && row >= self.y && row < self.y + self.height),
    {
        column >= self.x && column < self.x + self.width && row >= self.y && row < self.y + self.height
    }

    /// Where column `column` starts, or `None` past the last column.
    pub fn column_x(&self, column: usize) -> (x: Option<usize>)
        requires
            hint_grid_fits(self@),
        ensures
            match x {
                Some(x) => column <= self@.columns.len() && x == spec_column_x(self@, column as int),
                None => column > self@.columns.len(),
            },
    {
        if column > self.columns.len() {
            return None;
        }
        let ghost cols = self@.columns;
        let mut total: usize = 0;
        let mut i: usize = 0;
        while i < column
            invariant
                cols == columns_view(self.columns@),
                hint_grid_fits(self@),
                column <= cols.len(),
                i <= column,
                total == total_width(cols.take(i as int)) + i,
            decreases column - i,
        {
            proof {
                assert(cols.take(i as int + 1).drop_last() =~= cols.take(i as int));
                lemma_total_width_prefix(cols, i as int + 1);
            }
            total = total + self.columns[i].width + 1;
            i = i + 1;
        }
        proof {
            lemma_total_width_prefix(cols, column as int);
        }
        Some(self.x + 1 + total)
    }

    /// The entry drawn at the cell, if any.
    pub fn entry_at(&self, column: usize, row: usize) -> (entry: Option<usize>)
        requires
            hint_grid_fits(self@),
        ensures
            match entry {
                Some(e) => spec_hint_entry_at(self@, column as int, row as int) == Some(e as int),
                None => spec_hint_entry_at(self@, column as int, row as int) is None,
            },
    {
        let ghost g = self@;
        if row < self.y + 1 {
            return None;
        }
        let body_row = row - (self.y + 1);
        if body_row >= self.rows {
            return None;
        }
        let mut k: usize = 0;
        while k < self.columns.len()
            invariant
                g == self@,
                hint_grid_fits(g),
                row >= self.y + 1,
                body_row == row - (self.y + 1),
                body_row < self.rows,
                k <= g.columns.len(),
                forall|m: int| 0 <= m < k ==> !#[trigger] column_holds(g, column as int, row as int, m),
            decreases g.columns.len() - k,
        {
            let start = self.column_x(k).unwrap();
            let hint_column = &self.columns[k];
            assert(g.columns[k as int] == hint_column@);
            proof {
                assert(g.columns.take(k as int + 1).drop_last() =~= g.columns.take(k as int));
                lemma_total_width_prefix(g.columns, k as int + 1);
            }
            if column >= start && column < start + hint_column.width && body_row < hint_column.cells.len() {
                match hint_column.cells[body_row] {
                    HintCell::Entry(entry) => {
                        proof {
                            assert(column_holds(g, column as int, row as int, k as int));
                            assert(hint_hit(g, column as int, row as int, k as int));
                            assert forall|x: int| hint_hit(g, column as int, row as int, x) implies x == k by {
                                if x < k { assert(!column_holds(g, column as int, row as int, x)); }
                                if x > k { assert(!column_holds(g, column as int, row as int, k as int)); }
                            }
                        }
                        return Some(entry);
                    },
                    _ => {},
                }
            }
            k = k + 1;
        }
        proof {
            assert forall|x: int| !hint_hit(g, column as int, row as int, x) by {
                if 0 <= x < g.columns.len() { assert(!column_holds(g, column as int, row as int, x)); }
            }
        }
        None
    }
}

/// The entries of all sections, in order.
pub open spec fn flat_entries(sections: Seq<Seq<(Chord, Seq<char>)>>) -> Seq<(Chord, Seq<char>)>
    decreases sections.len(),
{
    if sections.len() == 0 { Seq::empty() } else { flat_entries(sections.drop_last()) + sections.last() }
}

/// For each entry of all sections, the index of its section.
pub open spec fn flat_ids(sections: Seq<Seq<(Chord, Seq<char>)>>) -> Seq<usize>
    decreases sections.len(),
{
    if sections.len() == 0 {
        Seq::empty()
    } else {
        flat_ids(sections.drop_last()) + Seq::new(sections.last().len(), |i: int| (sections.len() - 1) as usize)
    }
}

/// Each entry's key and label widths.
pub open spec fn entry_widths_of(entries: Seq<(Chord, Seq<char>)>) -> Seq<(usize, usize)> {
    entries.map_values(|e: (Chord, Seq<char>)| (text_width(chord_text(e.0, "Space"@)) as usize, text_width(e.1) as usize))
}

/// The widest label among the entries, or one column when there are none.
pub open spec fn widest_entry_label(widths: Seq<(usize, usize)>) -> int
    decreases widths.len(),
{
    if widths.len() == 0 {
        1
    } else if widths.len() == 1 {
        widths[0].1 as int
    } else {
        let rest = widest_entry_label(widths.drop_last());
        if widths.last().1 > rest { widths.last().1 as int } else { rest }
    }
}

/// The cells for entries `start..end`: each entry, with a rule before one
/// that starts a new section.
pub open spec fn entry_cells(ids: Seq<usize>, start: int, end: int) -> Seq<HintCell>
    decreases end - start,
{
    if end <= start {
        Seq::empty()
    } else {
        let rule = if end - 1 > start && ids[end - 1] != ids[end - 2] { seq![HintCell::Rule] } else { Seq::empty() };
        entry_cells(ids, start, end - 1) + rule + seq![HintCell::Entry((end - 1) as usize)]
    }
}

/// `cells` padded with empty cells, or cut, to `rows`.
pub open spec fn resized(cells: Seq<HintCell>, rows: int) -> Seq<HintCell> {
    if cells.len() <= rows {
        cells + Seq::new((rows - cells.len()) as nat, |i: int| HintCell::Empty)
    } else {
        cells.take(rows)
    }
}

/// Column `k` of a plan, before the title widens the first one.
pub open spec fn plan_column(ids: Seq<usize>, widths: Seq<(usize, usize)>, plan: HintPlanView, k: int) -> HintColumnView {
    let start = seg_start(plan.ends, k);
    let end = plan.ends[k] as int;
    let dims = spec_dimensions(widths, start, end, plan.label_width);
    HintColumnView {
        width: spec_hint_column_width(dims.0, dims.1),
        key_width: dims.0,
        label_width: dims.1,
        cells: resized(entry_cells(ids, start, end), plan.rows),
    }
}

/// The columns of a plan, the first widened, as far as the pane allows, to
/// hold the title.
pub open spec fn plan_columns(ids: Seq<usize>, widths: Seq<(usize, usize)>, plan: HintPlanView, title: Seq<char>, pane_width: usize) -> Seq<HintColumnView> {
    let natural = Seq::new(plan.ends.len(), |k: int| plan_column(ids, widths, plan, k));
    let first = natural[0];
    let title_width = sat(text_width(title) + 2int);
    let padding = min(sat_sub(title_width, first.width), sat_sub(pane_width as int, spec_hint_box_width(natural)));
    natural.update(0, HintColumnView { width: sat(first.width + padding), ..first })
}

/// `a - b`, or zero when `b` exceeds `a`.
pub open spec fn sat_sub(a: int, b: int) -> int {
    if a > b { a - b } else { 0 }
}

/// The smaller of two integers.
pub open spec fn min(a: int, b: int) -> int {
    if a <= b { a } else { b }
}

/// The card a plan lays out, at the bottom right of the pane.
pub open spec fn plan_grid(
    ids: Seq<usize>,
    widths: Seq<(usize, usize)>,
    plan: HintPlanView,
    title: Seq<char>,
    x: usize,
    y: usize,
    pane_width: usize,
    pane_height: usize,
) -> HintGridView {
    let columns = plan_columns(ids, widths, plan, title, pane_width);
    let width = spec_hint_box_width(columns);
    let height = plan.rows + 2;
    HintGridView {
        x: x + sat_sub(pane_width as int, width),
        y: sat_sub(y + pane_height, height),
        width,
        height,
        rows: plan.rows,
        columns,
        insufficient_space: false,
    }
}

/// The card shown when no layout fits: up to three rows across the pane,
/// saying there is not room.
pub open spec fn cramped_grid(x: usize, y: usize, pane_width: usize, pane_height: usize) -> HintGridView {
    let height = min(pane_height as int, 3);
    HintGridView {
        x: x as int,
        y: sat_sub(y + pane_height, height),
        width: pane_width as int,
        height,
        rows: sat_sub(height, 2),
        columns: Seq::empty(),
        insufficient_space: true,
    }
}

/// The sections' entries are few enough, and their keys and labels narrow
/// enough, for the layout's arithmetic.
pub open spec fn sections_fit(sections: Seq<Seq<(Chord, Seq<char>)>>) -> bool {
    &&& flat_entries(sections).len() <= usize::MAX / 2
    &&& forall|i: int| 0 <= i < flat_entries(sections).len() ==>
        text_width(chord_text((#[trigger] flat_entries(sections)[i]).0, "Space"@)) <= usize::MAX / 4
            && text_width(flat_entries(sections)[i].1) <= usize::MAX / 4
}

proof fn lemma_flat_ids_len(sections: Seq<Seq<(Chord, Seq<char>)>>)
    ensures
        flat_ids(sections).len() == flat_entries(sections).len(),
    decreases sections.len(),
{
    if sections.len() > 0 {
        lemma_flat_ids_len(sections.drop_last());
    }
}

proof fn lemma_flat_take(sections: Seq<Seq<(Chord, Seq<char>)>>, s: int)
    requires
        0 <= s < sections.len(),
    ensures
        flat_entries(sections.take(s + 1)) == flat_entries(sections.take(s)) + sections[s],
        flat_ids(sections.take(s + 1)) == flat_ids(sections.take(s)) + Seq::new(sections[s].len(), |i: int| s as usize),
{
    assert(sections.take(s + 1).drop_last() =~= sections.take(s));
    assert(sections.take(s + 1).last() == sections[s]);
    let a = Seq::new(sections.take(s + 1).last().len(), |i: int| (sections.take(s + 1).len() - 1) as usize);
    let b = Seq::new(sections[s].len(), |i: int| s as usize);
    assert(a =~= b);
}

/// Each entry's section index, and its key and label widths, over all
/// sections in order.
fn flatten_sections(sections: &[MenuSection]) -> (flat: (Vec<usize>, Vec<(usize, usize)>))
    requires
        sections_fit(sections_view(sections@)),
    ensures
        flat.0@ == flat_ids(sections_view(sections@)),
        flat.1@ == entry_widths_of(flat_entries(sections_view(sections@))),
        widths_fit(flat.1@),
        flat.0@.len() == flat.1@.len(),
        flat.0@.len() <= usize::MAX / 2,
{
    let ghost secs = sections_view(sections@);
    let mut ids: Vec<usize> = Vec::new();
    let mut widths: Vec<(usize, usize)> = Vec::new();
    let mut s: usize = 0;
    proof {
        assert(secs.take(0) =~= Seq::<Seq<(Chord, Seq<char>)>>::empty());
        assert(flat_entries(secs.take(0)) =~= Seq::<(Chord, Seq<char>)>::empty());
        assert(entry_widths_of(flat_entries(secs.take(0))) =~= Seq::<(usize, usize)>::empty());
    }
    while s < sections.len()
        invariant
            secs == sections_view(sections@),
            sections_fit(secs),
            s <= sections@.len(),
            ids@ == flat_ids(secs.take(s as int)),
            widths@ == entry_widths_of(flat_entries(secs.take(s as int))),
        decreases sections@.len() - s,
    {
        let entries = sections[s].entries();
        let ghost section = secs[s as int];
        assert(section == sections@[s as int]@);
        proof {
            lemma_flat_take(secs, s as int);
            lemma_flat_prefix(secs, s as int + 1);
        }
        let mut e: usize = 0;
        while e < entries.len()
            invariant
                secs == sections_view(sections@),
                sections_fit(secs),
                s < sections@.len(),
                section == secs[s as int],
                entries@.map_values(|m: MenuEntry| m@) == section,
                e <= entries@.len(),
                flat_entries(secs.take(s as int)) + section == flat_entries(secs.take(s as int + 1)),
                flat_entries(secs.take(s as int + 1)).len() <= flat_entries(secs).len(),
                forall|i: int| 0 <= i < flat_entries(secs.take(s as int + 1)).len() ==>
                    flat_entries(secs.take(s as int + 1))[i] == #[trigger] flat_entries(secs)[i],
                ids@ == flat_ids(secs.take(s as int)) + Seq::new(e as nat, |i: int| s as usize),
                widths@ == entry_widths_of(flat_entries(secs.take(s as int)) + section.take(e as int)),
            decreases entries@.len() - e,
        {
            let entry = &entries[e];
            assert(section[e as int] == entry@);
            let key = entry.key();
            let key_width = display_width(key.as_str());
            let label_width = display_width(entry.label());
            let ghost before = flat_entries(secs.take(s as int));
            proof {
                let at = before.len() + e;
                assert(flat_entries(secs.take(s as int + 1))[at] == section[e as int]);
                assert(flat_entries(secs)[at] == section[e as int]);
            }
            ids.push(s);
            widths.push((key_width, label_width));
            proof {
                assert(ids@ =~= flat_ids(secs.take(s as int)) + Seq::new(e as nat + 1, |i: int| s as usize));
                assert(before + section.take(e as int + 1) =~= (before + section.take(e as int)).push(section[e as int]));
                assert(widths@ =~= entry_widths_of(before + section.take(e as int + 1)));
            }
            e = e + 1;
        }
        assert(section.take(entries@.len() as int) =~= section);
        s = s + 1;
    }
    assert(secs.take(sections@.len() as int) =~= secs);
    proof {
        lemma_flat_ids_len(secs);
        assert forall|i: int| 0 <= i < widths@.len() implies (#[trigger] widths@[i]).0 <= usize::MAX / 4 && widths@[i].1 <= usize::MAX / 4 by {
            let _ = flat_entries(secs)[i];
        }
    }
    (ids, widths)
}

proof fn lemma_flat_prefix(sections: Seq<Seq<(Chord, Seq<char>)>>, s: int)
    requires
        0 <= s <= sections.len(),
    ensures
        flat_entries(sections.take(s)).len() <= flat_entries(sections).len(),
        forall|i: int| 0 <= i < flat_entries(sections.take(s)).len() ==>
            flat_entries(sections.take(s))[i] == #[trigger] flat_entries(sections)[i],
    decreases sections.len() - s,
{
    if s < sections.len() {
        lemma_flat_prefix(sections, s + 1);
        lemma_flat_take(sections, s);
    } else {
        assert(sections.take(s) =~= sections);
    }
}

proof fn lemma_tallest_bounded(ids: Seq<usize>, ends: Seq<usize>, row_limit: int)
    requires
        segments_ok(ids, ends, row_limit),
        0 <= row_limit,
    ensures
        0 <= tallest_of(ids, ends) <= row_limit,
    decreases ends.len(),
{
    if ends.len() > 0 {
        let rest = ends.drop_last();
        assert forall|k: int| 0 <= k < rest.len() implies {
            &&& seg_start(rest, k) < #[trigger] rest[k]
            &&& rest[k] <= ids.len()
            &&& spec_segment_height(ids, seg_start(rest, k), rest[k] as int) <= row_limit
        } by {
            let _ = ends[k];
        }
        lemma_tallest_bounded(ids, rest, row_limit);
        let _ = ends[ends.len() - 1];
    }
}

proof fn lemma_total_width_update_first(cols: Seq<HintColumnView>, c: HintColumnView)
    requires
        cols.len() >= 1,
    ensures
        total_width(cols.update(0, c)) == total_width(cols) - cols[0].width + c.width,
    decreases cols.len(),
{
    if cols.len() == 1 {
        assert(cols.update(0, c).drop_last() =~= Seq::<HintColumnView>::empty());
        assert(cols.drop_last() =~= Seq::<HintColumnView>::empty());
    } else {
        assert(cols.update(0, c).drop_last() =~= cols.drop_last().update(0, c));
        lemma_total_width_update_first(cols.drop_last(), c);
    }
}

/// Widening the first column by at most the room the pane has left keeps
/// the card inside the pane.
proof fn lemma_padded_width_fits(natural: Seq<HintColumnView>, padded: Seq<HintColumnView>, padding: int, pane_width: int)
    requires
        natural.len() >= 1,
        forall|k: int| 0 <= k < natural.len() ==> (#[trigger] natural[k]).width >= 0,
        0 <= padding <= sat_sub(pane_width, spec_hint_box_width(natural)),
        total_width(natural) + natural.len() + 1 <= pane_width <= usize::MAX,
        padded == natural.update(0, HintColumnView { width: sat(natural[0].width + padding), ..natural[0] }),
    ensures
        total_width(padded) + padded.len() + 1 <= pane_width,
{
    lemma_total_width_update_first(natural, padded[0]);
    assert(spec_hint_box_width(natural) == total_width(natural) + natural.len() + 1);
    assert(total_width(natural) >= natural[0].width) by {
        lemma_total_width_update_first(natural, HintColumnView { width: 0, ..natural[0] });
        lemma_total_width_nonneg(natural.update(0, HintColumnView { width: 0, ..natural[0] }));
    }
}

proof fn lemma_total_width_nonneg(cols: Seq<HintColumnView>)
    requires
        forall|k: int| 0 <= k < cols.len() ==> (#[trigger] cols[k]).width >= 0,
    ensures
        total_width(cols) >= 0,
    decreases cols.len(),
{
    if cols.len() > 0 {
        lemma_total_width_nonneg(cols.drop_last());
    }
}

/// The cells for entries `start..end`, padded or cut to `rows`.
fn column_cells(section_ids: &[usize], start: usize, end: usize, rows: usize) -> (cells: Vec<HintCell>)
    requires
        start <= end <= section_ids@.len(),
    ensures
        cells@ == resized(entry_cells(section_ids@, start as int, end as int), rows as int),
{
    let ghost ids = section_ids@;
    let mut cells: Vec<HintCell> = Vec::new();
    let mut index = start;
    while index < end
        invariant
            start <= index <= end <= ids.len(),
            ids == section_ids@,
            cells@ == entry_cells(ids, start as int, index as int),
        decreases end - index,
    {
        if index > start && section_ids[index] != section_ids[index - 1] {
            cells.push(HintCell::Rule);
        }
        cells.push(HintCell::Entry(index));
        assert(cells@ =~= entry_cells(ids, start as int, index as int + 1));
        index = index + 1;
    }
    let ghost built = cells@;
    while cells.len() < rows
        invariant
            built.len() <= cells@.len(),
            cells@.len() > built.len() ==> cells@.len() <= rows,
            cells@ == built + Seq::new((cells@.len() - built.len()) as nat, |i: int| HintCell::Empty),
        decreases rows - cells@.len(),
    {
        cells.push(HintCell::Empty);
        assert(cells@ =~= built + Seq::new((cells@.len() - built.len()) as nat, |i: int| HintCell::Empty));
    }
    cells.truncate(rows);
    assert(cells@ =~= resized(built, rows as int));
    cells
}

/// Column `k` of a plan, whose entries start at `start`.
fn plan_column_at(
    section_ids: &[usize],
    entry_widths: &[(usize, usize)],
    plan: &HintPlan,
    k: usize,
    start: usize,
    Ghost(pane_width): Ghost<usize>,
    Ghost(row_limit): Ghost<usize>,
) -> (column: HintColumn)
    requires
        plan_ok(section_ids@, entry_widths@, pane_width, row_limit, plan@),
        widths_fit(entry_widths@),
        section_ids@.len() == entry_widths@.len(),
        k < plan@.ends.len(),
        start == seg_start(plan@.ends, k as int),
    ensures
        column@ == plan_column(section_ids@, entry_widths@, plan@, k as int),
{
    let end = plan.ends[k];
    assert(seg_start(plan@.ends, k as int) < plan@.ends[k as int] <= section_ids@.len());
    let (key_width, label_width) = hint_column_dimensions(entry_widths, start, end, plan.label_width);
    proof {
        lemma_dimensions_bounded(entry_widths@, start as int, end as int, plan@.label_width, (usize::MAX / 4) as int);
    }
    let width = hint_column_width(key_width, label_width);
    let cells = column_cells(section_ids, start, end, plan.rows);
    HintColumn { width, key_width, label_width, cells }
}

/// The columns of a plan: each holds its entries, with a rule where a new
/// section starts, padded or cut to the plan's rows.
#[verifier::rlimit(60)]
#[verifier::spinoff_prover]
fn plan_to_columns(
    section_ids: &[usize],
    entry_widths: &[(usize, usize)],
    plan: &HintPlan,
    pane_width: usize,
    Ghost(row_limit): Ghost<usize>,
) -> (columns: Vec<HintColumn>)
    requires
        plan_ok(section_ids@, entry_widths@, pane_width, row_limit, plan@),
        widths_fit(entry_widths@),
        section_ids@.len() == entry_widths@.len(),
    ensures
        columns_view(columns@) == Seq::new(plan@.ends.len(), |k: int| plan_column(section_ids@, entry_widths@, plan@, k)),
        columns@.len() >= 1,
        total_width(columns_view(columns@)) + columns@.len() + 1 <= pane_width,
{
    let ghost ids = section_ids@;
    let ghost widths = entry_widths@;
    let ghost p = plan@;
    let mut columns: Vec<HintColumn> = Vec::new();
    let mut start: usize = 0;
    let mut k: usize = 0;
    while k < plan.ends.len()
        invariant
            p == plan@,
            ids == section_ids@,
            widths == entry_widths@,
            plan_ok(ids, widths, pane_width, row_limit, p),
            widths_fit(widths),
            ids.len() == widths.len(),
            k <= p.ends.len(),
            start == seg_start(p.ends, k as int),
            columns_view(columns@) == Seq::new(k as nat, |j: int| plan_column(ids, widths, p, j)),
            total_width(columns_view(columns@)) == body_of(widths, p.label_width, p.ends.take(k as int)),
        decreases p.ends.len() - k,
    {
        let column = plan_column_at(section_ids, entry_widths, plan, k, start, Ghost(pane_width), Ghost(row_limit));
        let ghost before = columns_view(columns@);
        let end = plan.ends[k];
        columns.push(column);
        proof {
            assert(columns_view(columns@) =~= before.push(column@));
            assert(columns_view(columns@) =~= Seq::new(k as nat + 1, |j: int| plan_column(ids, widths, p, j)));
            assert(columns_view(columns@).drop_last() =~= before);
            assert(p.ends.take(k as int + 1).drop_last() =~= p.ends.take(k as int));
            assert(seg_start(p.ends.take(k as int + 1), k as int) == seg_start(p.ends, k as int));
        }
        start = end;
        k = k + 1;
    }
    assert(p.ends.take(p.ends.len() as int) =~= p.ends);
    columns
}

/// The widest label among the entries, or one column when there are none.
fn widest_label(entry_widths: &[(usize, usize)]) -> (widest: usize)
    ensures
        widest == widest_entry_label(entry_widths@),
{
    let mut widest: usize = 1;
    let mut i: usize = 0;
    while i < entry_widths.len()
        invariant
            i <= entry_widths@.len(),
            widest == if i == 0 { 1 } else { widest_entry_label(entry_widths@.take(i as int)) },
        decreases entry_widths@.len() - i,
    {
        assert(entry_widths@.take(i as int + 1).drop_last() =~= entry_widths@.take(i as int));
        let label = entry_widths[i].1;
        if i == 0 || label > widest {
            widest = label;
        }
        i = i + 1;
    }
    assert(entry_widths@.take(entry_widths@.len() as int) =~= entry_widths@);
    widest
}

/// Widens the first column, as far as the pane allows, to hold the title.
fn pad_first_column(columns: &mut Vec<HintColumn>, title: &str, pane_width: usize)
    requires
        old(columns)@.len() >= 1,
        total_width(columns_view(old(columns)@)) + old(columns)@.len() + 1 <= pane_width,
    ensures
        ({
            let natural = columns_view(old(columns)@);
            let first = natural[0];
            let title_width = sat(text_width(title@) + 2int);
            let padding = min(sat_sub(title_width, first.width), sat_sub(pane_width as int, spec_hint_box_width(natural)));
            columns_view(final(columns)@) == natural.update(0, HintColumnView { width: sat(first.width + padding), ..first })
        }),
        total_width(columns_view(final(columns)@)) + final(columns)@.len() + 1 <= pane_width,
{
    let ghost natural = columns_view(columns@);
    let natural_width = hint_box_width(columns.as_slice());
    let title_width = display_width(title).saturating_add(2);
    let mut first = columns.remove(0);
    let room = pane_width.saturating_sub(natural_width);
    let over = title_width.saturating_sub(first.width);
    let title_padding = if over <= room { over } else { room };
    first.width = first.width.saturating_add(title_padding);
    columns.insert(0, first);
    proof {
        assert(columns_view(columns@) =~= natural.update(0, first@));
        lemma_padded_width_fits(natural, columns_view(columns@), title_padding as int, pane_width as int);
    }
}

/// The card `grid` is for `sections` under `title` at the bottom right of
/// the pane at `x`, `y`: laid out by the responsive plan, or the cramped
/// card exactly when no layout fits.
pub open spec fn bottom_card(
    secs: Seq<Seq<(Chord, Seq<char>)>>,
    x: usize,
    y: usize,
    pane_width: usize,
    pane_height: usize,
    title: Seq<char>,
    grid: HintGridView,
) -> bool {
    let ids = flat_ids(secs);
    let widths = entry_widths_of(flat_entries(secs));
    let full = widest_entry_label(widths);
    let available = sat_sub(pane_height as int, 2);
    let preferred = min(available, PREFERRED_HINT_ROWS as int);
    &&& grid.insufficient_space <==> !(some_width_fits(ids, widths, 0, full, pane_width, preferred as usize)
        || some_width_fits(ids, widths, 0, full, pane_width, available as usize))
    &&& grid.insufficient_space ==> grid == cramped_grid(x, y, pane_width, pane_height)
    &&& !grid.insufficient_space ==> exists|plan: HintPlanView| {
        &&& responsive_choice(ids, widths, full as usize, pane_width, available as usize, plan)
        &&& grid == plan_grid(ids, widths, plan, title, x, y, pane_width, pane_height)
    }
}

impl HintGrid {
    /// The card for `sections` at the bottom right of the pane at `x`, `y`:
    /// laid out by the responsive plan, or the cramped card when none fits.
    pub fn bottom(
        sections: &[MenuSection],
        title: &str,
        x: usize,
        y: usize,
        pane_width: usize,
        pane_height: usize,
    ) -> (grid: Self)
        requires
            sections_fit(sections_view(sections@)),
            x + pane_width <= usize::MAX,
            y + pane_height <= usize::MAX,
        ensures
            bottom_card(sections_view(sections@), x, y, pane_width, pane_height, title@, grid@),
    {
        let ghost secs = sections_view(sections@);
        let (section_ids, entry_widths) = flatten_sections(sections);
        proof {
            lemma_flat_ids_len(secs);
        }
        let full_label_width = widest_label(entry_widths.as_slice());
        let available_rows = pane_height.saturating_sub(2);
        let plan = responsive_hint_plan(section_ids.as_slice(), entry_widths.as_slice(), full_label_width, pane_width, available_rows);
        let plan = match plan {
            Some(plan) => plan,
            None => {
                let height = if pane_height <= 3 { pane_height } else { 3 };
                let grid = HintGrid {
                    x,
                    y: (y + pane_height).saturating_sub(height),
                    width: pane_width,
                    height,
                    rows: height.saturating_sub(2),
                    columns: Vec::new(),
                    insufficient_space: true,
                };
                assert(grid@.columns =~= Seq::<HintColumnView>::empty());
                return grid;
            },
        };
        let ghost p = plan@;
        let ghost preferred: usize = if available_rows <= PREFERRED_HINT_ROWS { available_rows } else { PREFERRED_HINT_ROWS };
        let ghost row_limit: usize = if plan_ok(section_ids@, entry_widths@, pane_width, preferred, p) {
            preferred
        } else {
            available_rows
        };
        let mut columns = plan_to_columns(section_ids.as_slice(), entry_widths.as_slice(), &plan, pane_width, Ghost(row_limit));
        pad_first_column(&mut columns, title, pane_width);
        proof {
            lemma_tallest_bounded(section_ids@, p.ends, row_limit as int);
        }
        let width = hint_box_width(columns.as_slice());
        let height = plan.rows + 2;
        let grid = HintGrid {
            x: x + pane_width.saturating_sub(width),
            y: (y + pane_height).saturating_sub(height),
            width,
            height,
            rows: plan.rows,
            columns,
            insufficient_space: false,
        };
        assert(grid@ == plan_grid(section_ids@, entry_widths@, p, title@, x, y, pane_width, pane_height));
        grid
    }

    /// The card for `sections`, after measuring them: `None` when they hold
    /// too many entries, or a key or label too wide, for the layout's
    /// arithmetic.
    pub fn bottom_measured(
        sections: &[MenuSection],
        title: &str,
        x: usize,
        y: usize,
        pane_width: usize,
        pane_height: usize,
    ) -> (grid: Option<Self>)
        requires
            x + pane_width <= usize::MAX,
            y + pane_height <= usize::MAX,
        ensures
            grid is Some <==> sections_fit(sections_view(sections@)),
            grid matches Some(g) ==> bottom_card(sections_view(sections@), x, y, pane_width, pane_height, title@, g@),
    {
        let ghost secs = sections_view(sections@);
        let mut count: usize = 0;
        let mut s: usize = 0;
        while s < sections.len()
            invariant
                secs == sections_view(sections@),
                s <= sections@.len(),
                count == flat_entries(secs.take(s as int)).len(),
                count <= usize::MAX / 2,
                forall|i: int| 0 <= i < flat_entries(secs.take(s as int)).len() ==>
                    text_width(chord_text((#[trigger] flat_entries(secs.take(s as int))[i]).0, "Space"@)) <= usize::MAX / 4
                        && text_width(flat_entries(secs.take(s as int))[i].1) <= usize::MAX / 4,
            decreases sections@.len() - s,
        {
            let entries = sections[s].entries();
            let ghost section = secs[s as int];
            assert(section == sections@[s as int]@);
            proof {
                lemma_flat_take(secs, s as int);
            }
            let ghost before = flat_entries(secs.take(s as int));
            let mut e: usize = 0;
            while e < entries.len()
                invariant
                    secs == sections_view(sections@),
                    s < sections@.len(),
                    section == secs[s as int],
                    before == flat_entries(secs.take(s as int)),
                    flat_entries(secs.take(s as int + 1)) == before + section,
                    entries@.map_values(|m: MenuEntry| m@) == section,
                    e <= entries@.len(),
                    count == before.len() + e,
                    count <= usize::MAX / 2,
                    forall|i: int| 0 <= i < before.len() + e ==>
                        text_width(chord_text((#[trigger] (before + section)[i]).0, "Space"@)) <= usize::MAX / 4
                            && text_width((before + section)[i].1) <= usize::MAX / 4,
                decreases entries@.len() - e,
            {
                let entry = &entries[e];
                assert(section[e as int] == entry@);
                assert((before + section)[before.len() + e] == section[e as int]);
                let key = entry.key();
                if display_width(key.as_str()) > usize::MAX / 4 || display_width(entry.label()) > usize::MAX / 4 || count >= usize::MAX / 2 {
                    proof {
                        lemma_flat_prefix(secs, s as int + 1);
                        assert(flat_entries(secs.take(s as int + 1))[before.len() + e] == section[e as int]);
                        assert(flat_entries(secs)[before.len() + e] == section[e as int]);
                    }
                    return None;
                }
                count = count + 1;
                e = e + 1;
            }
            assert(flat_entries(secs.take(s as int + 1)) =~= before + section);
            s = s + 1;
        }
        assert(secs.take(sections@.len() as int) =~= secs);
        Some(HintGrid::bottom(sections, title, x, y, pane_width, pane_height))
    }
}

} // verus!
