use vstd::prelude::*;
use vstd::math::{max, min};

use crate::model::User;

verus! {

// The record store, modelled in memory: a sequence of records held in
// strictly ascending identifier order, together with counters that record
// how many queries of each kind have been run against it. The pagination
// core promises that it runs no count query the caller did not ask for;
// the counters are what that promise is stated — and tested — against.

/// Records stand in strictly ascending identifier order.
pub open spec fn ids_strictly_ascending(s: Seq<User>) -> bool {
    forall|i: int, j: int|
        0 <= i < j < s.len() ==> #[trigger] s[i].id < #[trigger] s[j].id
}

/// How many records carry an identifier at or below `a`.
pub open spec fn count_le(s: Seq<User>, a: u128) -> int
    decreases s.len(),
{
    if s.len() == 0 {
        0
    } else {
        count_le(s.drop_last(), a) + if s.last().id <= a {
            1int
        } else {
            0int
        }
    }
}

/// How many records carry an identifier strictly below `b`.
pub open spec fn count_lt(s: Seq<User>, b: u128) -> int
    decreases s.len(),
{
    if s.len() == 0 {
        0
    } else {
        count_lt(s.drop_last(), b) + if s.last().id < b {
            1int
        } else {
            0int
        }
    }
}

/// In a sorted sequence, the records at or below `a` are exactly the prefix
/// of length `count_le`.
pub proof fn lemma_count_le_sorted(s: Seq<User>, a: u128)
    requires
        ids_strictly_ascending(s),
    ensures
        0 <= count_le(s, a) <= s.len(),
        forall|i: int| 0 <= i < count_le(s, a) ==> #[trigger] s[i].id <= a,
        forall|i: int| count_le(s, a) <= i < s.len() ==> #[trigger] s[i].id > a,
    decreases s.len(),
{
    if s.len() > 0 {
        let t = s.drop_last();
        assert(ids_strictly_ascending(t));
        lemma_count_le_sorted(t, a);
        let c = count_le(s, a);
        if s.last().id <= a {
            // Everything before the last record is smaller still, so the
            // whole sequence is the prefix.
            assert forall|i: int| 0 <= i < t.len() implies #[trigger] t[i].id <= a by {
                assert(t[i] == s[i]);
                assert(s[i].id < s[s.len() - 1].id);
            }
            if count_le(t, a) < t.len() {
                assert(t[count_le(t, a)].id > a);
            }
            assert(c == s.len());
            assert forall|i: int| 0 <= i < c implies #[trigger] s[i].id <= a by {
                if i < s.len() - 1 {
                    assert(s[i] == t[i]);
                }
            }
        } else {
            assert(c == count_le(t, a));
            assert forall|i: int| 0 <= i < c implies #[trigger] s[i].id <= a by {
                assert(s[i] == t[i]);
            }
            assert forall|i: int| c <= i < s.len() implies #[trigger] s[i].id > a by {
                if i < s.len() - 1 {
                    assert(s[i] == t[i]);
                }
            }
        }
    }
}

/// In a sorted sequence, the records strictly below `b` are exactly the
/// prefix of length `count_lt`.
pub proof fn lemma_count_lt_sorted(s: Seq<User>, b: u128)
    requires
        ids_strictly_ascending(s),
    ensures
        0 <= count_lt(s, b) <= s.len(),
        forall|i: int| 0 <= i < count_lt(s, b) ==> #[trigger] s[i].id < b,
        forall|i: int| count_lt(s, b) <= i < s.len() ==> #[trigger] s[i].id >= b,
    decreases s.len(),
{
    if s.len() > 0 {
        let t = s.drop_last();
        assert(ids_strictly_ascending(t));
        lemma_count_lt_sorted(t, b);
        let c = count_lt(s, b);
        if s.last().id < b {
            assert forall|i: int| 0 <= i < t.len() implies #[trigger] t[i].id < b by {
                assert(t[i] == s[i]);
                assert(s[i].id < s[s.len() - 1].id);
            }
            if count_lt(t, b) < t.len() {
                assert(t[count_lt(t, b)].id >= b);
            }
            assert(c == s.len());
            assert forall|i: int| 0 <= i < c implies #[trigger] s[i].id < b by {
                if i < s.len() - 1 {
                    assert(s[i] == t[i]);
                }
            }
        } else {
            assert(c == count_lt(t, b));
            assert forall|i: int| 0 <= i < c implies #[trigger] s[i].id < b by {
                assert(s[i] == t[i]);
            }
            assert forall|i: int| c <= i < s.len() implies #[trigger] s[i].id >= b by {
                if i < s.len() - 1 {
                    assert(s[i] == t[i]);
                }
            }
        }
    }
}

/// Index of the first record past the `after` boundary (0 when there is no
/// boundary).
pub open spec fn start_bound(s: Seq<User>, after: Option<u128>) -> int {
    match after {
        Option::None => 0,
        Option::Some(a) => count_le(s, a),
    }
}

/// Index just past the last record under the `before` boundary (the whole
/// length when there is no boundary).
pub open spec fn end_bound(s: Seq<User>, before: Option<u128>) -> int {
    match before {
        Option::None => s.len() as int,
        Option::Some(b) => count_lt(s, b),
    }
}

/// The window an ascending read returns: up to `limit` records following the
/// `after` boundary, in ascending identifier order.
pub open spec fn window_forward(s: Seq<User>, after: Option<u128>, limit: int) -> Seq<User> {
    let st = start_bound(s, after);
    s.subrange(st, min(st + limit, s.len() as int))
}

/// The window a descending read returns once re-sorted ascending: the last
/// `limit` records under the `before` boundary, in ascending identifier
/// order.
pub open spec fn window_backward(s: Seq<User>, before: Option<u128>, limit: int) -> Seq<User> {
    let en = end_bound(s, before);
    s.subrange(max(en - limit, 0), en)
}

/// One more query of a kind, saturating rather than wrapping.
pub open spec fn bumped(c: u64) -> u64 {
    if c < u64::MAX {
        (c + 1) as u64
    } else {
        c
    }
}

/// An identifier-ordered record store held in memory, with counters for the
/// queries run against it.
///
/// It stands for the collaborator the pagination core reads from, and doubles
/// as the test double the library's own tests page over.
#[derive(Debug)]
pub struct MemoryStore {
    /// The records, in strictly ascending identifier order.
    pub records: Vec<User>,
    /// How many ordered range reads have been run.
    pub read_queries: u64,
    /// How many window-existence counts have been run.
    pub window_queries: u64,
    /// How many whole-collection counts have been run.
    pub count_queries: u64,
}

impl MemoryStore {
    /// The store's one invariant: records stand in strictly ascending
    /// identifier order.
    pub open spec fn wf(self) -> bool {
        ids_strictly_ascending(self.records@)
    }

    /// An empty store with all query counters at zero.
    pub fn new() -> (s: MemoryStore)
        ensures
            s.records@ == Seq::<User>::empty(),
            s.read_queries == 0,
            s.window_queries == 0,
            s.count_queries == 0,
            s.wf(),
    {
        MemoryStore {
            records: Vec::new(),
            read_queries: 0,
            window_queries: 0,
            count_queries: 0,
        }
    }

    /// How many records the store holds.
    pub fn len(&self) -> (n: usize)
        ensures
            n == self.records@.len(),
    {
        self.records.len()
    }

    /// Append a record, provided its identifier lies above every identifier
    /// already present; otherwise the store is left unchanged.
    pub fn push_user(&mut self, user: User) -> (added: bool)
        requires
            old(self).wf(),
        ensures
            final(self).wf(),
            added <==> (old(self).records@.len() == 0
                || old(self).records@.last().id < user.id),
            added ==> final(self).records@ == old(self).records@.push(user),
            !added ==> *final(self) == *old(self),
            final(self).read_queries == old(self).read_queries,
            final(self).window_queries == old(self).window_queries,
            final(self).count_queries == old(self).count_queries,
    {
        let n = self.records.len();
        if n == 0 || self.records[n - 1].id < user.id {
            let ghost prev = self.records@;
            let ghost uid = user.id;
            self.records.push(user);
            proof {
                assert forall|i: int, j: int|
                    0 <= i < j < self.records@.len() implies #[trigger] self.records@[i].id
                    < #[trigger] self.records@[j].id by {
                    if j < prev.len() {
                        assert(prev[i].id < prev[j].id);
                    } else {
                        if i < prev.len() - 1 {
                            assert(prev[i].id < prev[prev.len() - 1].id);
                        }
                    }
                }
            }
            true
        } else {
            false
        }
    }

    /// Read up to `limit` records following the `after` boundary, ascending
    /// by identifier. One ordered range read.
    pub fn read_ascending(&mut self, after: Option<u128>, limit: usize) -> (rows: Vec<User>)
        requires
            old(self).wf(),
        ensures
            final(self).records == old(self).records,
            final(self).wf(),
            final(self).read_queries == bumped(old(self).read_queries),
            final(self).window_queries == old(self).window_queries,
            final(self).count_queries == old(self).count_queries,
            rows@ == window_forward(old(self).records@, after, limit as int),
    {
        let start = match after {
            None => 0,
            Some(a) => prefix_le(&self.records, a),
        };
        let rows = collect_range(&self.records, start, limit);
        self.read_queries = bump_counter(self.read_queries);
        rows
    }

    /// Read the last `limit` records under the `before` boundary — the rows a
    /// descending, limited read would return — re-sorted ascending by
    /// identifier. One ordered range read.
    pub fn read_descending_then_reverse(&mut self, before: Option<u128>, limit: usize) -> (rows:
        Vec<User>)
        requires
            old(self).wf(),
        ensures
            final(self).records == old(self).records,
            final(self).wf(),
            final(self).read_queries == bumped(old(self).read_queries),
            final(self).window_queries == old(self).window_queries,
            final(self).count_queries == old(self).count_queries,
            rows@ == window_backward(old(self).records@, before, limit as int),
    {
        let end = match before {
            None => self.records.len(),
            Some(b) => prefix_lt(&self.records, b),
        };
        let start = if end > limit {
            end - limit
        } else {
            0
        };
        let count = end - start;
        let rows = collect_range(&self.records, start, count);
        proof {
            assert(window_backward(self.records@, before, limit as int) =~= self.records@.subrange(
                start as int,
                end as int,
            ));
        }
        self.read_queries = bump_counter(self.read_queries);
        rows
    }

    /// How many records a window of size `limit` past the `after` boundary
    /// actually contains. One window-existence count.
    pub fn count_in_window(&mut self, after: Option<u128>, limit: usize) -> (n: usize)
        requires
            old(self).wf(),
        ensures
            final(self).records == old(self).records,
            final(self).wf(),
            final(self).read_queries == old(self).read_queries,
            final(self).window_queries == bumped(old(self).window_queries),
            final(self).count_queries == old(self).count_queries,
            n as int == min(
                limit as int,
                old(self).records@.len() - start_bound(old(self).records@, after),
            ),
    {
        let start = match after {
            None => 0,
            Some(a) => prefix_le(&self.records, a),
        };
        let avail = self.records.len() - start;
        self.window_queries = bump_counter(self.window_queries);
        if avail < limit {
            avail
        } else {
            limit
        }
    }

    /// How many records the whole collection holds, ignoring any boundary.
    /// One whole-collection count.
    pub fn count_all(&mut self) -> (n: usize)
        requires
            old(self).wf(),
        ensures
            final(self).records == old(self).records,
            final(self).wf(),
            final(self).read_queries == old(self).read_queries,
            final(self).window_queries == old(self).window_queries,
            final(self).count_queries == bumped(old(self).count_queries),
            n == old(self).records@.len(),
    {
        self.count_queries = bump_counter(self.count_queries);
        self.records.len()
    }
}

fn bump_counter(c: u64) -> (r: u64)
    ensures
        r == bumped(c),
{
    if c < u64::MAX {
        c + 1
    } else {
        c
    }
}

/// Length of the prefix of records with identifiers at or below `a`.
fn prefix_le(records: &Vec<User>, a: u128) -> (k: usize)
    requires
        ids_strictly_ascending(records@),
    ensures
        k as int == count_le(records@, a),
        k <= records@.len(),
{
    let n = records.len();
    let mut i: usize = 0;
    while i < n && records[i].id <= a
        invariant
            0 <= i <= n,
            n == records@.len(),
            forall|j: int| 0 <= j < i ==> #[trigger] records@[j].id <= a,
        decreases n - i,
    {
        i = i + 1;
    }
    proof {
        lemma_count_le_sorted(records@, a);
        let c = count_le(records@, a);
        if i < c {
            assert(records@[i as int].id <= a);
            assert(records@[i as int].id > a);
        }
        if c < i {
            assert(records@[c].id <= a);
            assert(records@[c].id > a);
        }
    }
    i
}

/// Length of the prefix of records with identifiers strictly below `b`.
fn prefix_lt(records: &Vec<User>, b: u128) -> (k: usize)
    requires
        ids_strictly_ascending(records@),
    ensures
        k as int == count_lt(records@, b),
        k <= records@.len(),
{
    let n = records.len();
    let mut i: usize = 0;
    while i < n && records[i].id < b
        invariant
            0 <= i <= n,
            n == records@.len(),
            forall|j: int| 0 <= j < i ==> #[trigger] records@[j].id < b,
        decreases n - i,
    {
        i = i + 1;
    }
    proof {
        lemma_count_lt_sorted(records@, b);
        let c = count_lt(records@, b);
        if i < c {
            assert(records@[i as int].id < b);
            assert(records@[i as int].id >= b);
        }
        if c < i {
            assert(records@[c].id < b);
            assert(records@[c].id >= b);
        }
    }
    i
}

/// Clones `records[start .. min(start + limit, len)]`.
fn collect_range(records: &Vec<User>, start: usize, limit: usize) -> (rows: Vec<User>)
    requires
        start <= records@.len(),
    ensures
        rows@ == records@.subrange(
            start as int,
            min(start as int + limit as int, records@.len() as int),
        ),
{
    let n = records.len();
    let mut rows: Vec<User> = Vec::new();
    let mut j: usize = start;
    while j < n && j - start < limit
        invariant
            start <= j <= n,
            n == records@.len(),
            j - start <= limit,
            rows@ =~= records@.subrange(start as int, j as int),
        decreases n - j,
    {
        let row = records[j].clone();
        rows.push(row);
        proof {
            assert(records@.subrange(start as int, j as int + 1) =~= records@.subrange(
                start as int,
                j as int,
            ).push(records@[j as int]));
        }
        j = j + 1;
    }
    proof {
        assert(j as int == min(start as int + limit as int, n as int));
    }
    rows
}

} // verus!
