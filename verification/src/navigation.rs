//! Direct workspace-wide comparison navigation: which hunk a step lands
//! on, and in which order the changed paths are tried.

use vstd::prelude::*;

verus! {

/// Which way a comparison step goes.
#[derive(Debug, Clone, Copy, PartialEq, Eq, Structural)]
pub enum Direction {
    Previous,
    Next,
}

impl Direction {
    /// Whether the step goes forward.
    pub fn is_next(self) -> (next: bool)
        ensures
            next == (self is Next),
    {
        matches!(self, Direction::Next)
    }
}

/// `p` is the first hunk whose target line is after `current_line`.
pub open spec fn first_after(lines: Seq<usize>, current_line: usize, p: int) -> bool {
    &&& 0 <= p < lines.len()
    &&& lines[p] > current_line
    &&& forall|q: int| 0 <= q < p ==> #[trigger] lines[q] <= current_line
}

/// `p` is the last hunk whose target line is before `current_line`.
pub open spec fn last_before(lines: Seq<usize>, current_line: usize, p: int) -> bool {
    &&& 0 <= p < lines.len()
    &&& lines[p] < current_line
    &&& forall|q: int| p < q < lines.len() ==> #[trigger] lines[q] >= current_line
}

/// The hunk a step lands on. A remembered hunk steps to its neighbour, so
/// hunks with equal target lines stay distinct; without one, the step goes
/// to the first hunk after the cursor's line, or the last one before it.
/// `None` when there is no such hunk.
pub open spec fn spec_stepped_hunk_index(
    lines: Seq<usize>,
    current_line: usize,
    remembered: Option<usize>,
    forward: bool,
) -> Option<int> {
    match remembered {
        Some(index) => if forward {
            if index + 1 < lines.len() { Some(index + 1) } else { None }
        } else {
            if index >= 1 { Some(index - 1) } else { None }
        },
        None => if forward {
            if exists|p: int| first_after(lines, current_line, p) {
                Some(choose|p: int| first_after(lines, current_line, p))
            } else {
                None
            }
        } else {
            if exists|p: int| last_before(lines, current_line, p) {
                Some(choose|p: int| last_before(lines, current_line, p))
            } else {
                None
            }
        },
    }
}

/// An optional index as an integer.
pub open spec fn opt_index(o: Option<usize>) -> Option<int> {
    match o {
        Some(i) => Some(i as int),
        None => None,
    }
}

/// The hunk a comparison step lands on, given each hunk's target line.
pub fn stepped_hunk_index(
    lines: &[usize],
    current_line: usize,
    remembered: Option<usize>,
    forward: bool,
) -> (stepped: Option<usize>)
    ensures
        opt_index(stepped) == spec_stepped_hunk_index(lines@, current_line, remembered, forward),
{
    let count = lines.len();
    match remembered {
        Some(index) => {
            if forward {
                if index < usize::MAX && index + 1 < lines.len() {
                    Some(index + 1)
                } else {
                    None
                }
            } else if index >= 1 {
                Some(index - 1)
            } else {
                None
            }
        },
        None => {
            if forward {
                let mut p: usize = 0;
                while p < lines.len()
                    invariant
                        remembered is None,
                        forward,
                        p <= lines@.len(),
                        forall|q: int| 0 <= q < p ==> #[trigger] lines@[q] <= current_line,
                    decreases lines@.len() - p,
                {
                    if lines[p] > current_line {
                        proof {
                            assert(first_after(lines@, current_line, p as int));
                            assert forall|x: int| first_after(lines@, current_line, x) implies x == p by {
                                if x < p { assert(lines@[x] <= current_line); }
                                if x > p { assert(lines@[p as int] <= current_line); }
                            }
                        }
                        return Some(p);
                    }
                    p = p + 1;
                }
                proof {
                    assert forall|x: int| !first_after(lines@, current_line, x) by {
                        if 0 <= x < lines@.len() { assert(lines@[x] <= current_line); }
                    }
                }
                None
            } else {
                let mut p: usize = lines.len();
                while p > 0
                    invariant
                        remembered is None,
                        !forward,
                        p <= lines@.len(),
                        forall|q: int| p <= q < lines@.len() ==> #[trigger] lines@[q] >= current_line,
                    decreases p,
                {
                    if lines[p - 1] < current_line {
                        proof {
                            let found = p - 1;
                            assert(last_before(lines@, current_line, found as int));
                            assert forall|x: int| last_before(lines@, current_line, x) implies x == found by {
                                if x > found { assert(lines@[x] >= current_line); }
                                if x < found { assert(lines@[found as int] >= current_line); }
                            }
                        }
                        return Some(p - 1);
                    }
                    p = p - 1;
                }
                proof {
                    assert forall|x: int| !last_before(lines@, current_line, x) by {
                        if 0 <= x < lines@.len() { assert(lines@[x] >= current_line); }
                    }
                }
                None
            }
        },
    }
}

/// A step lands on a hunk: whatever it lands on is one of `lines`' hunks,
/// and from a remembered hunk it is that hunk's neighbour on the side the
/// step goes.
pub proof fn lemma_step_lands_on_a_neighbour(
    lines: Seq<usize>,
    current_line: usize,
    remembered: Option<usize>,
    forward: bool,
)
    requires
        remembered matches Some(i) ==> i < lines.len(),
    ensures
        spec_stepped_hunk_index(lines, current_line, remembered, forward) matches Some(p) ==> {
            &&& 0 <= p < lines.len()
            &&& remembered matches Some(i) ==> p == if forward { i + 1 } else { i - 1 }
            &&& remembered is None ==> if forward { lines[p] > current_line } else { lines[p] < current_line }
        },
{
}

/// Where a changed-path step lands in the file it opens.
#[derive(Debug, Clone, Copy, PartialEq, Eq, Structural)]
pub enum PathLanding {
    /// At the edge the step crosses into: the first hunk going forward,
    /// the last going back.
    TraversalEdge,
    /// At the file's first hunk, whichever way the step goes.
    FirstHunk,
}

/// `x mod m` for `0 <= x < 2m`, without a division.
proof fn lemma_mod_once(x: int, m: int)
    requires
        0 < m,
        0 <= x < 2 * m,
    ensures
        x % m == if x < m { x } else { x - m },
{
    if x < m {
        vstd::arithmetic::div_mod::lemma_small_mod(x as nat, m as nat);
    } else {
        vstd::arithmetic::div_mod::lemma_small_mod((x - m) as nat, m as nat);
        vstd::arithmetic::div_mod::lemma_mod_adds(x - m, m, m);
        vstd::arithmetic::div_mod::lemma_mod_self_0(m);
    }
}

/// The path a changed-path step tries first, and whether reaching it
/// already wrapped around the list, from where the current path sorts
/// among the `len` changed paths (`Ok` at a changed path, `Err` where it
/// would be inserted).
pub open spec fn spec_traversal_start(found: Result<usize, usize>, len: usize, next: bool) -> (int, bool) {
    let index = match found {
        Ok(i) => i as int,
        Err(i) => i as int,
    };
    if next {
        match found {
            Ok(i) => ((i + 1) % (len as int), i + 1 == len),
            Err(i) => ((i as int) % (len as int), i == len),
        }
    } else {
        (if index >= 1 { index - 1 } else { len - 1 }, index == 0)
    }
}

/// The `k`-th path a step tries: onwards from `start` in the step's
/// direction, around the end of the list.
pub open spec fn order_index(start: int, len: int, next: bool, k: int) -> int {
    if next { (start + k) % len } else { (start + len - k) % len }
}

/// Trying `index` means the step went around the end of the list.
pub open spec fn wraps_at(len: int, next: bool, index: int) -> bool {
    (next && index == 0) || (!next && index + 1 == len)
}

/// The paths a changed-path step tries, in order, each with whether the
/// step has wrapped around the list by the time it tries it.
pub open spec fn traversal_entry(found: Result<usize, usize>, len: usize, next: bool, k: int) -> (int, bool) {
    let (start, initially) = spec_traversal_start(found, len, next);
    (
        order_index(start, len as int, next, k),
        initially || exists|m: int| 1 <= m <= k && #[trigger] wraps_at(len as int, next, order_index(start, len as int, next, m)),
    )
}

/// The binary-search result names a place among `len` paths.
pub open spec fn valid_search(found: Result<usize, usize>, len: usize) -> bool {
    match found {
        Ok(i) => i < len,
        Err(i) => i <= len,
    }
}

/// The order a changed-path step tries the `len` changed paths in, given
/// where the current path sorts among them, and for each whether the step
/// has wrapped around the list when it gets there.
pub fn traversal_order(found: Result<usize, usize>, len: usize, direction: Direction) -> (order: Vec<(usize, bool)>)
    requires
        len > 0,
        valid_search(found, len),
    ensures
        order@.len() == len,
        forall|k: int| 0 <= k < len ==> (#[trigger] order@[k]).0 as int == traversal_entry(found, len, direction is Next, k).0
            && order@[k].1 == traversal_entry(found, len, direction is Next, k).1,
{
    let next = direction.is_next();
    let ghost spec_start = spec_traversal_start(found, len, next);
    let (start, initially) = match found {
        Ok(index) if next => {
            proof { lemma_mod_once(index + 1, len as int); }
            (if index + 1 == len { 0 } else { index + 1 }, index + 1 == len)
        },
        Err(index) if next => {
            proof { lemma_mod_once(index as int, len as int); }
            (if index == len { 0 } else { index }, index == len)
        },
        Ok(index) | Err(index) => (if index >= 1 { index - 1 } else { len - 1 }, index == 0),
    };
    assert(start as int == spec_start.0 && initially == spec_start.1);
    let mut order: Vec<(usize, bool)> = Vec::new();
    let mut wrapped = initially;
    let mut offset: usize = 0;
    while offset < len
        invariant
            len > 0,
            start < len,
            spec_start == spec_traversal_start(found, len, next),
            start as int == spec_start.0,
            initially == spec_start.1,
            next == (direction is Next),
            offset <= len,
            order@.len() == offset,
            offset > 0 ==> wrapped == traversal_entry(found, len, next, offset - 1).1,
            offset == 0 ==> wrapped == initially,
            forall|k: int| 0 <= k < offset ==> (#[trigger] order@[k]).0 as int == traversal_entry(found, len, next, k).0
                && order@[k].1 == traversal_entry(found, len, next, k).1,
        decreases len - offset,
    {
        let index = if next {
            proof { lemma_mod_once(start + offset, len as int); }
            if offset < len - start { start + offset } else { offset - (len - start) }
        } else {
            proof { lemma_mod_once(start + len - offset, len as int); }
            if offset <= start { start - offset } else { len - (offset - start) }
        };
        assert(index as int == order_index(start as int, len as int, next, offset as int));
        let hit = offset > 0 && ((next && index == 0) || (!next && index + 1 == len));
        proof {
            if hit {
                assert(wraps_at(len as int, next, order_index(start as int, len as int, next, offset as int)));
            }
            if offset > 0 {
                let before = traversal_entry(found, len, next, offset - 1).1;
                let now = traversal_entry(found, len, next, offset as int).1;
                if before {
                    if !initially {
                        let m = choose|m: int| 1 <= m <= offset - 1 && #[trigger] wraps_at(len as int, next, order_index(start as int, len as int, next, m));
                        assert(1 <= m <= offset && wraps_at(len as int, next, order_index(start as int, len as int, next, m)));
                    }
                }
                if now && !initially {
                    let m = choose|m: int| 1 <= m <= offset && #[trigger] wraps_at(len as int, next, order_index(start as int, len as int, next, m));
                    if m < offset {
                        assert(1 <= m <= offset - 1 && wraps_at(len as int, next, order_index(start as int, len as int, next, m)));
                    }
                }
                assert(now == (before || hit));
            } else {
                assert(traversal_entry(found, len, next, 0).1 == initially);
            }
        }
        wrapped = wrapped || hit;
        order.push((index, wrapped));
        offset = offset + 1;
    }
    order
}

/// Path `p` is among those a changed-path step tries.
pub open spec fn is_tried(found: Result<usize, usize>, len: usize, next: bool, p: int) -> bool {
    exists|k: int| 0 <= k < len && #[trigger] traversal_entry(found, len, next, k).0 == p
}

/// A changed-path step tries every changed path exactly once: the order
/// holds each of the `len` paths at one place.
pub proof fn lemma_traversal_tries_every_path_once(found: Result<usize, usize>, len: usize, next: bool)
    requires
        len > 0,
        valid_search(found, len),
    ensures
        forall|k: int| 0 <= k < len ==> 0 <= #[trigger] traversal_entry(found, len, next, k).0 < len,
        forall|k1: int, k2: int| 0 <= k1 < k2 < len ==>
            #[trigger] traversal_entry(found, len, next, k1).0 != #[trigger] traversal_entry(found, len, next, k2).0,
        forall|p: int| 0 <= p < len ==> #[trigger] is_tried(found, len, next, p),
{
    let start = spec_traversal_start(found, len, next).0;
    let n = len as int;
    if next {
        match found {
            Ok(i) => lemma_mod_once(i + 1, n),
            Err(i) => lemma_mod_once(i as int, n),
        }
    }
    assert(0 <= start < n);
    assert forall|k: int| 0 <= k < len implies 0 <= #[trigger] traversal_entry(found, len, next, k).0 < len by {
        if next { lemma_mod_once(start + k, n); } else { lemma_mod_once(start + n - k, n); }
    }
    assert forall|k1: int, k2: int| 0 <= k1 < k2 < len implies
        #[trigger] traversal_entry(found, len, next, k1).0 != #[trigger] traversal_entry(found, len, next, k2).0 by {
        if next {
            lemma_mod_once(start + k1, n);
            lemma_mod_once(start + k2, n);
        } else {
            lemma_mod_once(start + n - k1, n);
            lemma_mod_once(start + n - k2, n);
        }
    }
    assert forall|p: int| 0 <= p < len implies #[trigger] is_tried(found, len, next, p) by {
        let k = if next {
            if p >= start { p - start } else { p + n - start }
        } else {
            if p <= start { start - p } else { start + n - p }
        };
        if next { lemma_mod_once(start + k, n); } else { lemma_mod_once(start + n - k, n); }
        assert(traversal_entry(found, len, next, k).0 == p);
    }
}

/// The notice a changed-path step shows when it wrapped around the list.
pub open spec fn spec_wrap_notice(direction: Direction, landing: PathLanding) -> Seq<char> {
    match (direction, landing) {
        (Direction::Next, PathLanding::TraversalEdge) => "wrapped to first change"@,
        (Direction::Previous, PathLanding::TraversalEdge) => "wrapped to last change"@,
        (Direction::Next, PathLanding::FirstHunk) => "wrapped to first changed file"@,
        (Direction::Previous, PathLanding::FirstHunk) => "wrapped to last changed file"@,
    }
}

/// The notice a changed-path step shows when it wrapped around the list.
pub fn wrap_notice(direction: Direction, landing: PathLanding) -> (notice: &'static str)
    ensures
        notice@ == spec_wrap_notice(direction, landing),
{
    match (direction, landing) {
        (Direction::Next, PathLanding::TraversalEdge) => "wrapped to first change",
        (Direction::Previous, PathLanding::TraversalEdge) => "wrapped to last change",
        (Direction::Next, PathLanding::FirstHunk) => "wrapped to first changed file",
        (Direction::Previous, PathLanding::FirstHunk) => "wrapped to last changed file",
    }
}

/// The hunk a changed-path step lands on in a file with `hunks` hunks: the
/// first, unless the step goes back to the traversal edge, where it is the
/// last.
pub fn landing_hunk(direction: Direction, landing: PathLanding, hunks: usize) -> (index: usize)
    requires
        hunks > 0,
    ensures
        index == if landing is FirstHunk || direction is Next { 0 } else { hunks - 1 },
{
    if landing == PathLanding::FirstHunk || direction.is_next() {
        0
    } else {
        hunks - 1
    }
}

} // verus!
