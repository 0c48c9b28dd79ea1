//! The queue of landing reconciliations waiting for the worker: at most
//! two are kept, the oldest and the newest; a later one replaces the
//! newest.

use vstd::prelude::*;

verus! {

/// Requests waiting while the worker is busy.
pub struct RequestQueue<R> {
    /// The oldest waiting request.
    pub queued: Option<R>,
    /// The newest, kept while an older one waits.
    pub retry: Option<R>,
}

impl<R> RequestQueue<R> {
    /// An empty queue.
    pub fn new() -> (queue: Self)
        ensures
            queue.queued is None,
            queue.retry is None,
    {
        RequestQueue { queued: None, retry: None }
    }

    /// Keep `request` for later: it waits first when nothing does, else
    /// it replaces the newest.
    pub fn retain_later(&mut self, request: R)
        ensures
            old(self).queued is None ==> final(self).queued == Some(request) && final(self).retry == old(self).retry,
            old(self).queued is Some ==> final(self).queued == old(self).queued && final(self).retry == Some(request),
    {
        if self.queued.is_none() {
            self.queued = Some(request);
        } else {
            self.retry = Some(request);
        }
    }

    /// The next request to run: `chained` (the continuation of the one
    /// that finished) first, else the oldest waiting, else the newest;
    /// when one is taken and nothing else waits first, the newest moves up.
    pub fn next_request(&mut self, chained: Option<R>) -> (next: Option<R>)
        ensures
            next == (match chained {
                Some(c) => Some(c),
                None => match old(self).queued {
                    Some(q) => Some(q),
                    None => old(self).retry,
                },
            }),
            ({
                let queued_after_take = if chained is Some { old(self).queued } else { None::<R> };
                let retry_after_take = if chained is None && old(self).queued is None { None::<R> } else { old(self).retry };
                if next is Some && queued_after_take is None {
                    final(self).queued == retry_after_take && final(self).retry is None
                } else {
                    final(self).queued == queued_after_take && final(self).retry == retry_after_take
                }
            }),
    {
        let next = match chained {
            Some(c) => Some(c),
            None => match self.queued.take() {
                Some(q) => Some(q),
                None => self.retry.take(),
            },
        };
        if next.is_some() && self.queued.is_none() {
            self.queued = self.retry.take();
        }
        next
    }

    /// Drop every waiting request.
    pub fn clear_retained(&mut self)
        ensures
            final(self).queued is None,
            final(self).retry is None,
    {
        self.queued = None;
        self.retry = None;
    }

    /// Whether landing work is under way: the worker runs or a request
    /// waits.
    pub fn pending(&self, worker_pending: bool) -> (pending: bool)
        ensures
            pending == (worker_pending || self.queued is Some || self.retry is Some),
    {
        worker_pending || self.queued.is_some() || self.retry.is_some()
    }
}

/// Groups by their checkout and their candidates' positions.
pub open spec fn groups_view(groups: Seq<(u64, Vec<usize>)>) -> Seq<(u64, Seq<usize>)> {
    groups.map_values(|g: (u64, Vec<usize>)| (g.0, g.1@))
}

/// The first group from `j` on for checkout `key`, or -1.
pub open spec fn group_of(groups: Seq<(u64, Seq<usize>)>, key: u64, j: int) -> int
    decreases groups.len() - j,
{
    if j < 0 || j >= groups.len() {
        -1
    } else if groups[j].0 == key {
        j
    } else {
        group_of(groups, key, j + 1)
    }
}

/// The candidates grouped by checkout, groups in the order their checkout
/// first appears and candidates in order within each: the first `n`
/// candidates, whose checkouts are `checkouts`.
pub open spec fn spec_group_by_checkout(checkouts: Seq<u64>, n: int) -> Seq<(u64, Seq<usize>)>
    decreases n,
{
    if n <= 0 {
        Seq::empty()
    } else {
        let groups = spec_group_by_checkout(checkouts, n - 1);
        let key = checkouts[n - 1];
        let at = group_of(groups, key, 0);
        if at < 0 {
            groups.push((key, seq![(n - 1) as usize]))
        } else {
            groups.update(at, (key, groups[at].1.push((n - 1) as usize)))
        }
    }
}

proof fn lemma_group_of_found(groups: Seq<(u64, Seq<usize>)>, key: u64, j: int)
    requires
        group_of(groups, key, j) >= 0,
    ensures
        0 <= group_of(groups, key, j) < groups.len(),
        groups[group_of(groups, key, j)].0 == key,
    decreases groups.len() - j,
{
    if j >= 0 && j < groups.len() && groups[j].0 != key {
        lemma_group_of_found(groups, key, j + 1);
    }
}

/// Where the group for `key` is, searching from the front.
fn find_group(groups: &Vec<(u64, Vec<usize>)>, key: u64) -> (at: Option<usize>)
    ensures
        match at {
            Some(a) => group_of(groups_view(groups@), key, 0) == a as int && a < groups@.len(),
            None => group_of(groups_view(groups@), key, 0) < 0,
        },
{
    let ghost gv = groups_view(groups@);
    let mut j: usize = 0;
    while j < groups.len()
        invariant
            gv == groups_view(groups@),
            j <= groups@.len(),
            group_of(gv, key, 0) == group_of(gv, key, j as int),
        decreases groups@.len() - j,
    {
        assert(gv[j as int].0 == groups@[j as int].0);
        if groups[j].0 == key {
            return Some(j);
        }
        j = j + 1;
    }
    None
}

/// The candidates grouped by checkout, given each candidate's checkout.
pub fn group_by_checkout(checkouts: &[u64]) -> (groups: Vec<(u64, Vec<usize>)>)
    ensures
        groups_view(groups@) == spec_group_by_checkout(checkouts@, checkouts@.len() as int),
{
    let mut groups: Vec<(u64, Vec<usize>)> = Vec::new();
    assert(groups_view(groups@) =~= Seq::empty());
    let mut i: usize = 0;
    while i < checkouts.len()
        invariant
            i <= checkouts@.len(),
            groups_view(groups@) == spec_group_by_checkout(checkouts@, i as int),
        decreases checkouts@.len() - i,
    {
        let key = checkouts[i];
        let ghost before = groups_view(groups@);
        match find_group(&groups, key) {
            None => {
                let mut members: Vec<usize> = Vec::new();
                members.push(i);
                groups.push((key, members));
                assert(groups_view(groups@) =~= before.push((key, seq![i])));
            },
            Some(at) => {
                proof {
                    lemma_group_of_found(before, key, 0);
                }
                let ghost old_groups = groups@;
                let (k, mut members) = groups.remove(at);
                assert(k == key);
                members.push(i);
                groups.insert(at, (k, members));
                assert(groups@ =~= old_groups.update(at as int, (k, groups@[at as int].1)));
                assert(groups_view(groups@) =~= before.update(at as int, (key, before[at as int].1.push(i))));
            },
        }
        i = i + 1;
    }
    groups
}

/// The candidates groups from `g` on hold, `g`'s own from position
/// `next`: what a paused reconciliation resumes with.
pub open spec fn spec_remaining(groups: Seq<(u64, Seq<usize>)>, g: int, next: int) -> Seq<usize>
    decreases groups.len() - g,
{
    if g < 0 || g >= groups.len() {
        Seq::empty()
    } else {
        groups[g].1.skip(if next <= groups[g].1.len() { next } else { groups[g].1.len() as int }) + spec_remaining(groups, g + 1, 0)
    }
}

/// The candidates a reconciliation paused in group `g` at position `next`
/// resumes with: the rest of that group, then every later group's.
pub fn remaining(groups: &Vec<(u64, Vec<usize>)>, g: usize, next: usize) -> (rest: Vec<usize>)
    ensures
        rest@ == spec_remaining(groups_view(groups@), g as int, next as int),
{
    let ghost gv = groups_view(groups@);
    let mut rest: Vec<usize> = Vec::new();
    if g >= groups.len() {
        return rest;
    }
    let mut j: usize = g;
    while j < groups.len()
        invariant
            gv == groups_view(groups@),
            g <= j <= groups@.len(),
            g < groups@.len(),
            rest@ + spec_remaining(gv, j as int, if j == g { next as int } else { 0 }) == spec_remaining(gv, g as int, next as int),
        decreases groups@.len() - j,
    {
        let members = &groups[j].1;
        assert(gv[j as int].1 == members@);
        let from: usize = if j == g { if next <= members.len() { next } else { members.len() } } else { 0 };
        let ghost tail = spec_remaining(gv, j as int + 1, 0);
        let ghost before = rest@;
        let mut k: usize = from;
        while k < members.len()
            invariant
                from <= k <= members@.len(),
                rest@ == before + members@.subrange(from as int, k as int),
            decreases members@.len() - k,
        {
            rest.push(members[k]);
            assert(rest@ =~= before + members@.subrange(from as int, k as int + 1));
            k = k + 1;
        }
        assert(members@.subrange(from as int, members@.len() as int) =~= members@.skip(from as int));
        assert(spec_remaining(gv, j as int, if j == g { next as int } else { 0 }) == members@.skip(from as int) + tail);
        assert(before + (members@.skip(from as int) + tail) =~= rest@ + tail);
        j = j + 1;
    }
    assert(spec_remaining(gv, j as int, 0) =~= Seq::<usize>::empty());
    assert(rest@ + Seq::<usize>::empty() =~= rest@);
    rest
}

} // verus!
