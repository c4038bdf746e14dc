//! The scrape policy: range partitioning and adaptive pool growth.
//!
//! [`RunCtl`] is the runner's single policy point.  A monotonic cursor
//! hands out batches of entry ids; completions are rewarded with the next
//! batch; sustained success grows the fetcher pool against a rising bar;
//! any failure stops growth.  The ghost sequence of issued batches lets
//! the partition laws be stated and proved: every id of the scrape range
//! lands in exactly one batch, and no batch reaches past the range.

use vstd::prelude::*;
use crate::error::Error;
use crate::fetcher::FetchCtl;

verus! {

pub const MIN_BATCH_SIZE: u64 = 100;

pub const MAX_BATCH_SIZE: u64 = 10_000;

pub const SUCCESS_STEP: usize = 5;

/// `a + b`, saturating at `u64::MAX`.
pub open spec fn sat_add64(a: u64, b: u64) -> u64 {
    if a + b > u64::MAX {
        u64::MAX
    } else {
        (a + b) as u64
    }
}

/// The smaller of `a` and `b`.
pub open spec fn min64(a: u64, b: u64) -> u64 {
    if a < b {
        a
    } else {
        b
    }
}

/// The batch size handed out at a cursor position: an even share of the
/// remaining work per fetcher, clamped to `[MIN_BATCH_SIZE, MAX_BATCH_SIZE]`.
pub open spec fn batch_size_for(last_entry: u64, next_entry: u64, max_fetchers: usize) -> u64 {
    let per = (last_entry + 1 - next_entry) / (max_fetchers as int);
    if per < MIN_BATCH_SIZE {
        MIN_BATCH_SIZE
    } else if per > MAX_BATCH_SIZE {
        MAX_BATCH_SIZE
    } else {
        per as u64
    }
}

/// Whether the closed interval `b` contains `id`.
pub open spec fn batch_contains(b: (u64, u64), id: u64) -> bool {
    b.0 <= id <= b.1
}

/// Whether some issued batch contains `id`.
pub open spec fn covered(issued: Seq<(u64, u64)>, id: u64) -> bool {
    exists|i: int| 0 <= i < issued.len() && batch_contains(issued[i], id)
}

/// The issued batches partition exactly the ids of `[start, last]` that
/// lie below the cursor: they are mutually disjoint, stay within the
/// range, and cover precisely the ids already handed out.
pub open spec fn batches_wf(start: u64, last: u64, ne: u64, issued: Seq<(u64, u64)>) -> bool {
    &&& (forall|i: int, j: int|
        #![trigger issued[i], issued[j]]
        0 <= i < j < issued.len() ==> issued[i].1 < issued[j].0)
    &&& (forall|i: int| 0 <= i < issued.len() ==> (#[trigger] issued[i]).1 < ne)
    &&& (forall|id: u64| #[trigger] covered(issued, id) ==> start <= id <= last && id < ne)
    &&& (forall|id: u64| start <= id <= last && id < ne ==> #[trigger] covered(issued, id))
}

/// Computed configuration of a scrape run.
#[derive(Clone, Debug)]
pub struct Config {
    /// The base URL of the log, as given by the caller.
    pub log_url: String,
    /// The User-Agent header sent with every request.
    pub user_agent: String,
    /// The maximum number of entries to fetch.
    pub limit: u64,
    /// The first entry id to fetch.
    pub offset: u64,
    /// How many fetchers to boot at the start.
    pub initial_fetchers: usize,
    /// The hard bound on the pool, if the caller set one.
    pub max_fetchers: Option<usize>,
}

impl Config {
    /// A configuration with defaults: no user agent, no limit, offset 0,
    /// one initial fetcher, no pool bound.
    pub fn new(log_url: String) -> (r: Config)
        ensures
            r.log_url == log_url,
            r.user_agent@ == Seq::<char>::empty(),
            r.limit == 0,
            r.offset == 0,
            r.initial_fetchers == 1,
            r.max_fetchers is None,
    {
        Config {
            log_url,
            user_agent: String::new(),
            limit: 0,
            offset: 0,
            initial_fetchers: 1,
            max_fetchers: None,
        }
    }

    /// Sets the User-Agent header.
    pub fn user_agent(self, user_agent: String) -> (r: Config)
        ensures
            r == (Config { user_agent, ..self }),
    {
        Config { user_agent, ..self }
    }

    /// Sets the maximum number of entries to fetch.
    pub fn limit(self, limit: u64) -> (r: Config)
        ensures
            r == (Config { limit, ..self }),
    {
        Config { limit, ..self }
    }

    /// Sets the first entry id to fetch.
    pub fn offset(self, offset: u64) -> (r: Config)
        ensures
            r == (Config { offset, ..self }),
    {
        Config { offset, ..self }
    }

    /// Sets the size of the initial pool.
    pub fn initial_fetchers(self, fetchers: usize) -> (r: Config)
        ensures
            r == (Config { initial_fetchers: fetchers, ..self }),
    {
        Config { initial_fetchers: fetchers, ..self }
    }

    /// Bounds the pool.
    pub fn max_fetchers(self, max_fetchers: usize) -> (r: Config)
        ensures
            r == (Config { max_fetchers: Some(max_fetchers), ..self }),
    {
        Config { max_fetchers: Some(max_fetchers), ..self }
    }
}

/// What a finished run reports.
#[derive(Debug)]
pub struct RunStats {
    /// How many entries the run asked its fetchers to deliver.
    pub fetched_count: u64,
    /// When the STH was fetched, in wall-clock milliseconds.
    pub sth_retrieved_at: u64,
    /// The STH's own timestamp.
    pub sth_timestamp: u64,
    /// The size of the tree the STH describes.
    pub sth_tree_size: u64,
}

impl RunStats {
    /// All-zero statistics, as a run starts with.
    pub fn new() -> (r: RunStats)
        ensures
            r.fetched_count == 0,
            r.sth_retrieved_at == 0,
            r.sth_timestamp == 0,
            r.sth_tree_size == 0,
    {
        RunStats { fetched_count: 0, sth_retrieved_at: 0, sth_timestamp: 0, sth_tree_size: 0 }
    }
}

impl Default for RunStats {
    /// All-zero statistics.
    fn default() -> (r: RunStats)
        ensures
            r.fetched_count == 0,
            r.sth_retrieved_at == 0,
            r.sth_timestamp == 0,
            r.sth_tree_size == 0,
    {
        RunStats::new()
    }
}

/// The id of the last entry a run will fetch: one before the smaller of
/// the tree size and `offset + limit` (saturating).  When that smaller
/// value is zero there is no last entry, which surfaces as the same
/// overflow error the subtraction would raise.
pub fn compute_last_entry(tree_size: u64, offset: u64, limit: u64) -> (r: Result<u64, Error>)
    ensures
        min64(tree_size, sat_add64(offset, limit)) == 0 ==> (r matches Err(e) && e matches
            Error::ArithmeticOverflow(_)),
        min64(tree_size, sat_add64(offset, limit)) > 0 ==> r == Ok::<u64, Error>(
            (min64(tree_size, sat_add64(offset, limit)) - 1) as u64,
        ),
        r matches Ok(l) ==> l < tree_size,
{
    let bound = offset.saturating_add(limit);
    let m = if tree_size < bound {
        tree_size
    } else {
        bound
    };
    match m.checked_sub(1) {
        Some(l) => Ok(l),
        None => Err(Error::arithmetic("adjusting last_entry")),
    }
}

/// The count a successful run reports: the size of the closed interval
/// `[offset, last_entry]`, saturating.
pub fn count_fetched(offset: u64, last_entry: u64) -> (r: u64)
    requires
        offset <= last_entry,
    ensures
        r == sat_add64((last_entry - offset) as u64, 1),
{
    last_entry.saturating_sub(offset).saturating_add(1)
}

/// The size of the initial fetcher pool: the configured count, at
/// least one, at most the pool bound.
pub fn initial_pool_size(initial_fetchers: usize, max_fetchers: usize) -> (r: usize)
    requires
        max_fetchers >= 1,
    ensures
        r == if initial_fetchers < 1 {
            1usize
        } else if initial_fetchers > max_fetchers {
            max_fetchers
        } else {
            initial_fetchers
        },
        1 <= r <= max_fetchers,
{
    let capped: usize = if initial_fetchers > max_fetchers {
        max_fetchers
    } else {
        initial_fetchers
    };
    if capped < 1 {
        1
    } else {
        capped
    }
}

/// The runner's policy state.
pub struct RunCtl {
    next_entry: u64,
    last_entry: u64,
    max_fetchers: usize,
    pool: usize,
    success_count: usize,
    success_threshold: usize,
    start0: Ghost<u64>,
    issued: Ghost<Seq<(u64, u64)>>,
}

impl RunCtl {
    /// The cursor: the first entry id not yet handed out.
    pub closed spec fn next_entry(self) -> u64 {
        self.next_entry
    }

    /// The last entry id of the scrape range.
    pub closed spec fn last_entry(self) -> u64 {
        self.last_entry
    }

    /// The first entry id of the scrape range.
    pub closed spec fn start(self) -> u64 {
        self.start0@
    }

    /// The bound on the pool.
    pub closed spec fn max_fetchers(self) -> usize {
        self.max_fetchers
    }

    /// How many fetchers have been booted.
    pub closed spec fn pool(self) -> usize {
        self.pool
    }

    /// Successes seen since the last failure or pool growth.
    pub closed spec fn success_count(self) -> usize {
        self.success_count
    }

    /// The rising bar that successes must clear before the pool grows.
    pub closed spec fn success_threshold(self) -> usize {
        self.success_threshold
    }

    /// Every batch handed out so far, in order.
    pub closed spec fn issued(self) -> Seq<(u64, u64)> {
        self.issued@
    }

    /// The state invariant: a sane pool bound, a range that leaves room
    /// for the cursor to pass its end, and a well-formed partition.
    pub open spec fn wf(self) -> bool {
        &&& self.max_fetchers() >= 1
        &&& self.last_entry() < u64::MAX
        &&& self.start() <= self.next_entry()
        &&& batches_wf(self.start(), self.last_entry(), self.next_entry(), self.issued())
    }

    /// A fresh policy state.  The cursor starts at `offset`, clamped to
    /// the range's end.
    pub fn new(offset: u64, last_entry: u64, max_fetchers: usize) -> (r: RunCtl)
        requires
            max_fetchers >= 1,
            last_entry < u64::MAX,
        ensures
            r.wf(),
            r.next_entry() == min64(last_entry, offset),
            r.start() == min64(last_entry, offset),
            r.last_entry() == last_entry,
            r.max_fetchers() == max_fetchers,
            r.pool() == 0,
            r.success_count() == 0,
            r.success_threshold() == 0,
            r.issued() == Seq::<(u64, u64)>::empty(),
    {
        let ne = if last_entry < offset {
            last_entry
        } else {
            offset
        };
        let r = RunCtl {
            next_entry: ne,
            last_entry,
            max_fetchers,
            pool: 0,
            success_count: 0,
            success_threshold: 0,
            start0: Ghost(ne),
            issued: Ghost(Seq::empty()),
        };
        proof {
            assert forall|id: u64| #[trigger] covered(r.issued(), id) implies false by {
                assert(r.issued().len() == 0);
            }
        }
        r
    }

    /// Whether ids remain that no batch has covered: the runner's loop
    /// guard.
    pub fn work_remains(&self) -> (r: bool)
        ensures
            r == (self.next_entry() <= self.last_entry()),
    {
        self.next_entry <= self.last_entry
    }

    /// Hands out the next batch and advances the cursor by the batch
    /// size.  The batch is the next slice of the range, cut short at the
    /// range's end.
    pub fn next_batch(&mut self) -> (r: Result<(u64, u64), Error>)
        requires
            old(self).wf(),
        ensures
            final(self).wf(),
            final(self).last_entry() == old(self).last_entry(),
            final(self).start() == old(self).start(),
            final(self).max_fetchers() == old(self).max_fetchers(),
            final(self).pool() == old(self).pool(),
            final(self).success_count() == old(self).success_count(),
            final(self).success_threshold() == old(self).success_threshold(),
            r matches Ok(b) ==> {
                let bs = batch_size_for(
                    old(self).last_entry(),
                    old(self).next_entry(),
                    old(self).max_fetchers(),
                );
                &&& old(self).next_entry() <= old(self).last_entry() + 1
                &&& b.0 == old(self).next_entry()
                &&& b.1 == min64(old(self).last_entry(), (old(self).next_entry() + bs - 1) as u64)
                &&& final(self).next_entry() == old(self).next_entry() + bs
                &&& final(self).issued() == old(self).issued().push(b)
            },
            r matches Err(e) ==> *final(self) == *old(self) && e matches Error::ArithmeticOverflow(
                _,
            ),
            old(self).next_entry() <= old(self).last_entry() + 1 && old(self).next_entry()
                + batch_size_for(
                old(self).last_entry(),
                old(self).next_entry(),
                old(self).max_fetchers(),
            ) <= u64::MAX ==> r is Ok,
    {
        let entries_to_fetch: u64 = match (self.last_entry + 1).checked_sub(self.next_entry) {
            Some(e) => e,
            None => {
                return Err(Error::arithmetic("calculating entries_to_fetch"));
            },
        };
        let per: u64 = entries_to_fetch / (self.max_fetchers as u64);
        let bs: u64 = if per < MIN_BATCH_SIZE {
            MIN_BATCH_SIZE
        } else if per > MAX_BATCH_SIZE {
            MAX_BATCH_SIZE
        } else {
            per
        };
        let hi: u64 = match self.next_entry.checked_add(bs) {
            Some(h) => h,
            None => {
                return Err(Error::arithmetic("calculating next fetch range"));
            },
        };
        let b_end: u64 = if self.last_entry < hi - 1 {
            self.last_entry
        } else {
            hi - 1
        };
        let batch = (self.next_entry, b_end);
        self.next_entry = hi;
        proof {
            self.issued@ = self.issued@.push(batch);
            lemma_push_preserves_batches_wf(
                old(self).start(),
                old(self).last_entry(),
                old(self).next_entry(),
                old(self).issued(),
                batch,
                self.next_entry,
            );
        }
        Ok(batch)
    }

    /// Reacts to a fetcher's success report.  When the run of successes
    /// clears the rising bar and the pool is below its bound, the pool
    /// grows by one fetcher, which receives the next batch; otherwise
    /// only the count advances.
    pub fn success(&mut self) -> (r: Result<Option<(u64, u64)>, Error>)
        requires
            old(self).wf(),
        ensures
            final(self).wf(),
            final(self).last_entry() == old(self).last_entry(),
            final(self).start() == old(self).start(),
            final(self).max_fetchers() == old(self).max_fetchers(),
            r matches Ok(Some(b)) ==> {
                let bs = batch_size_for(
                    old(self).last_entry(),
                    old(self).next_entry(),
                    old(self).max_fetchers(),
                );
                &&& old(self).success_count() + 1 > old(self).success_threshold()
                &&& old(self).pool() < old(self).max_fetchers()
                &&& final(self).pool() == old(self).pool() + 1
                &&& final(self).success_count() == 0
                &&& final(self).success_threshold() == old(self).success_threshold() + SUCCESS_STEP
                &&& b.0 == old(self).next_entry()
                &&& b.1 == min64(old(self).last_entry(), (old(self).next_entry() + bs - 1) as u64)
                &&& final(self).next_entry() == old(self).next_entry() + bs
                &&& final(self).issued() == old(self).issued().push(b)
            },
            r matches Ok(None) ==> {
                &&& !(old(self).success_count() + 1 > old(self).success_threshold() && old(
                    self,
                ).pool() < old(self).max_fetchers())
                &&& final(self).success_count() == old(self).success_count() + 1
                &&& final(self).pool() == old(self).pool()
                &&& final(self).success_threshold() == old(self).success_threshold()
                &&& final(self).next_entry() == old(self).next_entry()
                &&& final(self).issued() == old(self).issued()
            },
            r matches Err(e) ==> e matches Error::ArithmeticOverflow(_),
            old(self).success_count() < usize::MAX && (old(self).success_count() + 1 > old(
                self,
            ).success_threshold() && old(self).pool() < old(self).max_fetchers()
                ==> old(self).success_threshold() + SUCCESS_STEP <= usize::MAX && old(
                self,
            ).next_entry() <= old(self).last_entry() + 1 && old(self).next_entry()
                + batch_size_for(
                old(self).last_entry(),
                old(self).next_entry(),
                old(self).max_fetchers(),
            ) <= u64::MAX) ==> r is Ok,
    {
        let sc: usize = match self.success_count.checked_add(1) {
            Some(s) => s,
            None => {
                return Err(Error::arithmetic("incrementing success_count"));
            },
        };
        self.success_count = sc;
        if self.success_count > self.success_threshold && self.pool < self.max_fetchers {
            self.success_count = 0;
            self.success_threshold = match self.success_threshold.checked_add(SUCCESS_STEP) {
                Some(t) => t,
                None => {
                    return Err(Error::arithmetic("advancing success_threshold"));
                },
            };
            let batch = match self.next_batch() {
                Ok(b) => b,
                Err(e) => {
                    return Err(e);
                },
            };
            self.pool = self.pool + 1;
            Ok(Some(batch))
        } else {
            Ok(None)
        }
    }

    /// Reacts to a fetcher's failure report: the success run is broken,
    /// so growth starts over.
    pub fn failure(&mut self)
        ensures
            final(self).success_count() == 0,
            final(self).next_entry() == old(self).next_entry(),
            final(self).last_entry() == old(self).last_entry(),
            final(self).start() == old(self).start(),
            final(self).max_fetchers() == old(self).max_fetchers(),
            final(self).pool() == old(self).pool(),
            final(self).success_threshold() == old(self).success_threshold(),
            final(self).issued() == old(self).issued(),
            old(self).wf() ==> final(self).wf(),
    {
        self.success_count = 0;
    }

    /// Reacts to a fetcher's completion report: worker `n` is done with
    /// its batch and receives the next one.  A report from a worker the
    /// pool never booted is an internal error.
    pub fn complete(&mut self, n: usize) -> (r: Result<(u64, u64), Error>)
        requires
            old(self).wf(),
        ensures
            final(self).wf(),
            final(self).last_entry() == old(self).last_entry(),
            final(self).start() == old(self).start(),
            final(self).max_fetchers() == old(self).max_fetchers(),
            final(self).pool() == old(self).pool(),
            n >= old(self).pool() ==> *final(self) == *old(self),
            n >= old(self).pool() ==> (r matches Err(e) && e matches Error::InternalError(_)),
            n < old(self).pool() ==> (r matches Ok(b) ==> {
                let bs = batch_size_for(
                    old(self).last_entry(),
                    old(self).next_entry(),
                    old(self).max_fetchers(),
                );
                &&& b.0 == old(self).next_entry()
                &&& b.1 == min64(old(self).last_entry(), (old(self).next_entry() + bs - 1) as u64)
                &&& final(self).next_entry() == old(self).next_entry() + bs
                &&& final(self).issued() == old(self).issued().push(b)
            }),
            n < old(self).pool() && old(self).next_entry() <= old(self).last_entry() + 1 && old(
                self,
            ).next_entry() + batch_size_for(
                old(self).last_entry(),
                old(self).next_entry(),
                old(self).max_fetchers(),
            ) <= u64::MAX ==> r is Ok,
    {
        if n >= self.pool {
            return Err(Error::internal("received Complete message from non-existent Fetcher"));
        }
        self.next_batch()
    }

    /// Boots one fetcher of the initial pool: raises the growth bar and
    /// hands the new worker its first batch.
    pub fn boot_fetcher(&mut self) -> (r: Result<(u64, u64), Error>)
        requires
            old(self).wf(),
        ensures
            final(self).wf(),
            final(self).last_entry() == old(self).last_entry(),
            final(self).start() == old(self).start(),
            final(self).max_fetchers() == old(self).max_fetchers(),
            r matches Ok(b) ==> {
                let bs = batch_size_for(
                    old(self).last_entry(),
                    old(self).next_entry(),
                    old(self).max_fetchers(),
                );
                &&& final(self).pool() == old(self).pool() + 1
                &&& final(self).success_threshold() == old(self).success_threshold() + SUCCESS_STEP
                &&& b.0 == old(self).next_entry()
                &&& b.1 == min64(old(self).last_entry(), (old(self).next_entry() + bs - 1) as u64)
                &&& final(self).next_entry() == old(self).next_entry() + bs
                &&& final(self).issued() == old(self).issued().push(b)
            },
            r matches Err(e) ==> e matches Error::ArithmeticOverflow(_),
            old(self).next_entry() <= old(self).last_entry() + 1 && old(self).next_entry()
                + batch_size_for(
                old(self).last_entry(),
                old(self).next_entry(),
                old(self).max_fetchers(),
            ) <= u64::MAX && old(self).pool() < usize::MAX && old(self).success_threshold()
                + SUCCESS_STEP <= usize::MAX ==> r is Ok,
    {
        let batch = match self.next_batch() {
            Ok(b) => b,
            Err(e) => {
                return Err(e);
            },
        };
        if self.pool == usize::MAX {
            return Err(Error::arithmetic("growing the initial pool"));
        }
        self.pool = self.pool + 1;
        self.success_threshold = match self.success_threshold.checked_add(SUCCESS_STEP) {
            Some(t) => t,
            None => {
                return Err(Error::arithmetic("advancing success_threshold"));
            },
        };
        Ok(batch)
    }
}

/// Pushing the batch that `next_batch` cuts at cursor `ne` keeps the
/// partition well-formed with the advanced cursor.
proof fn lemma_push_preserves_batches_wf(
    start: u64,
    last: u64,
    ne: u64,
    issued: Seq<(u64, u64)>,
    batch: (u64, u64),
    ne2: u64,
)
    requires
        start <= ne,
        last < u64::MAX,
        batches_wf(start, last, ne, issued),
        batch.0 == ne,
        ne <= last + 1,
        ne < ne2,
        batch.1 == min64(last, (ne2 - 1) as u64),
    ensures
        batches_wf(start, last, ne2, issued.push(batch)),
{
    let issued2 = issued.push(batch);
    assert forall|i: int, j: int|
        #![trigger issued2[i], issued2[j]]
        0 <= i < j < issued2.len() implies issued2[i].1 < issued2[j].0 by {
        if j < issued.len() {
            assert(issued[i].1 < issued[j].0);
        } else {
            assert(issued[i].1 < ne);
        }
    }
    assert forall|id: u64| #[trigger] covered(issued2, id) implies start <= id <= last && id < ne2
        by {
        let i = choose|i: int| 0 <= i < issued2.len() && batch_contains(issued2[i], id);
        if i < issued.len() {
            assert(covered(issued, id)) by {
                assert(batch_contains(issued[i], id));
            }
        } else {
            assert(batch_contains(batch, id));
        }
    }
    assert forall|id: u64| start <= id <= last && id < ne2 implies #[trigger] covered(issued2, id)
        by {
        if id < ne {
            assert(covered(issued, id));
            let i = choose|i: int| 0 <= i < issued.len() && batch_contains(issued[i], id);
            assert(issued2[i] == issued[i]);
            assert(batch_contains(issued2[i], id));
        } else {
            assert(batch_contains(batch, id));
            assert(issued2[issued.len() as int] == batch);
        }
    }
}

/// The partition law: once the cursor has passed the range's end, the
/// issued batches are pairwise disjoint, stay within `[start, last]`,
/// and every id of `[start, last]` lies in exactly one of them.
pub proof fn lemma_batches_partition(ctl: RunCtl)
    requires
        ctl.wf(),
        ctl.next_entry() > ctl.last_entry(),
    ensures
        forall|id: u64|
            ctl.start() <= id <= ctl.last_entry() ==> #[trigger] covered(ctl.issued(), id),
        forall|id: u64|
            #[trigger] covered(ctl.issued(), id) ==> ctl.start() <= id <= ctl.last_entry(),
        forall|i: int, j: int, id: u64|
            0 <= i < ctl.issued().len() && 0 <= j < ctl.issued().len() && #[trigger] batch_contains(
                ctl.issued()[i],
                id,
            ) && #[trigger] batch_contains(ctl.issued()[j], id) ==> i == j,
{
    assert forall|i: int, j: int, id: u64|
        0 <= i < ctl.issued().len() && 0 <= j < ctl.issued().len() && #[trigger] batch_contains(
            ctl.issued()[i],
            id,
        ) && #[trigger] batch_contains(ctl.issued()[j], id) implies i == j by {
        if i < j {
            assert(ctl.issued()[i].1 < ctl.issued()[j].0);
        } else if j < i {
            assert(ctl.issued()[j].1 < ctl.issued()[i].0);
        }
    }
}

/// No issued batch holds an id at or beyond the tree size, provided the
/// range's last entry lies below it — which `compute_last_entry`
/// guarantees.
pub proof fn lemma_no_id_beyond_tree_size(ctl: RunCtl, tree_size: u64)
    requires
        ctl.wf(),
        ctl.last_entry() < tree_size,
    ensures
        forall|id: u64| #[trigger] covered(ctl.issued(), id) ==> id < tree_size,
{
}


/// Whether a fetcher has drained its batch by deliveries alone: as many
/// entries delivered as the batch holds, none for an empty batch.
pub open spec fn drained_exactly(fc: FetchCtl) -> bool {
    if fc.batch().0 <= fc.batch().1 {
        fc.delivered().len() == fc.batch().1 - fc.batch().0 + 1
    } else {
        fc.delivered().len() == 0
    }
}

/// Whether some fetcher delivered `id`.
pub open spec fn delivered_by_some(fetchers: Seq<FetchCtl>, id: u64) -> bool {
    exists|i: int| 0 <= i < fetchers.len() && fetchers[i].delivered().contains(id)
}

/// The exactly-once law for a whole run: when the runner has handed out
/// its entire range, one fetcher drained each batch, and no delivery was
/// lost or invented, then every id of the scrape range was delivered by
/// exactly one fetcher, exactly once, and each fetcher delivered its ids
/// in strictly ascending order.
pub proof fn lemma_scrape_exactly_once(ctl: RunCtl, fetchers: Seq<FetchCtl>)
    requires
        ctl.wf(),
        ctl.next_entry() > ctl.last_entry(),
        fetchers.len() == ctl.issued().len(),
        forall|i: int|
            0 <= i < fetchers.len() ==> (#[trigger] fetchers[i]).wf() && fetchers[i].batch()
                == ctl.issued()[i] && drained_exactly(fetchers[i]),
    ensures
        forall|id: u64|
            ctl.start() <= id <= ctl.last_entry() <==> #[trigger] delivered_by_some(
                fetchers,
                id,
            ),
        forall|i: int, j: int, id: u64|
            0 <= i < fetchers.len() && 0 <= j < fetchers.len() && #[trigger] fetchers[i].delivered().contains(id)
                && #[trigger] fetchers[j].delivered().contains(id) ==> i == j,
        forall|i: int, k: int, l: int|
            #![trigger fetchers[i].delivered()[k], fetchers[i].delivered()[l]]
            0 <= i < fetchers.len() && 0 <= k < l < fetchers[i].delivered().len()
                ==> fetchers[i].delivered()[k] < fetchers[i].delivered()[l],
{
    assert forall|i: int, id: u64|
        #![trigger fetchers[i].delivered().contains(id)]
        0 <= i < fetchers.len() implies (fetchers[i].delivered().contains(id)
        <==> batch_contains(ctl.issued()[i], id)) by {
        let fc = fetchers[i];
        if fc.batch().0 <= fc.batch().1 {
            crate::fetcher::lemma_drain_exact(fc);
        } else {
            assert(fc.delivered().len() == 0);
            assert(!fc.delivered().contains(id));
        }
    }
    assert forall|id: u64| ctl.start() <= id <= ctl.last_entry() implies #[trigger] delivered_by_some(
        fetchers,
        id,
    ) by {
        assert(covered(ctl.issued(), id));
        let i = choose|i: int|
            0 <= i < ctl.issued().len() && batch_contains(ctl.issued()[i], id);
        assert(fetchers[i].delivered().contains(id));
    }
    assert forall|id: u64| #[trigger] delivered_by_some(fetchers, id) implies ctl.start() <= id
        <= ctl.last_entry() by {
        let i = choose|i: int|
            0 <= i < fetchers.len() && fetchers[i].delivered().contains(id);
        assert(batch_contains(ctl.issued()[i], id));
        assert(covered(ctl.issued(), id)) by {
            assert(0 <= i < ctl.issued().len() && batch_contains(ctl.issued()[i], id));
        }
    }
    assert forall|i: int, j: int, id: u64|
        0 <= i < fetchers.len() && 0 <= j < fetchers.len() && #[trigger] fetchers[i].delivered()
            .contains(id) && #[trigger] fetchers[j].delivered().contains(id) implies i == j by {
        assert(batch_contains(ctl.issued()[i], id));
        assert(batch_contains(ctl.issued()[j], id));
        if i < j {
            assert(ctl.issued()[i].1 < ctl.issued()[j].0);
        } else if j < i {
            assert(ctl.issued()[j].1 < ctl.issued()[i].0);
        }
    }
    assert forall|i: int, k: int, l: int|
        #![trigger fetchers[i].delivered()[k], fetchers[i].delivered()[l]]
        0 <= i < fetchers.len() && 0 <= k < l < fetchers[i].delivered().len() implies
        fetchers[i].delivered()[k] < fetchers[i].delivered()[l] by {
        let fc = fetchers[i];
        if fc.batch().0 <= fc.batch().1 {
            crate::fetcher::lemma_drain_exact(fc);
        }
    }
}

/// The tree-size bound for a whole run: with the range's last entry
/// below the tree size — which `compute_last_entry` guarantees — no
/// fetcher delivers an id at or beyond the tree size.
pub proof fn lemma_scrape_below_tree_size(ctl: RunCtl, fetchers: Seq<FetchCtl>, tree_size: u64)
    requires
        ctl.wf(),
        ctl.last_entry() < tree_size,
        fetchers.len() == ctl.issued().len(),
        forall|i: int|
            0 <= i < fetchers.len() ==> (#[trigger] fetchers[i]).wf() && fetchers[i].batch()
                == ctl.issued()[i] && drained_exactly(fetchers[i]),
    ensures
        forall|i: int, id: u64|
            0 <= i < fetchers.len() && #[trigger] fetchers[i].delivered().contains(id) ==> id
                < tree_size,
{
    assert forall|i: int, id: u64|
        0 <= i < fetchers.len() && #[trigger] fetchers[i].delivered().contains(id) implies id
        < tree_size by {
        let fc = fetchers[i];
        if fc.batch().0 <= fc.batch().1 {
            crate::fetcher::lemma_drain_exact(fc);
            assert(batch_contains(ctl.issued()[i], id));
            assert(covered(ctl.issued(), id)) by {
                assert(0 <= i < ctl.issued().len() && batch_contains(ctl.issued()[i], id));
            }
        } else {
            assert(fc.delivered().len() == 0);
        }
    }
}

} // verus!
