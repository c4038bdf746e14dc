//! The per-worker fetch logic: draining a range of entries.
//!
//! A fetcher repeatedly asks the log for `[start, end]`, hands every
//! returned entry to the sink with its id, and advances `start` by the
//! number of entries received — servers may return fewer than asked.
//! Rate limiting, server errors and transport errors back off and retry;
//! other client errors are fatal.  [`FetchCtl`] is that state machine:
//! the caller performs the HTTP exchange and the sleep, classifies what
//! happened into an [`HttpEvent`], and obeys the returned
//! [`FetchOutcome`].

use vstd::prelude::*;
use crate::error::Error;
use crate::responses::{parse_get_entries, spec_entries_of, RawEntry};
use crate::retryer::{failure_delay, Retryer, BASE_RETRY_SCALING_MILLIS, MIN_RETRY_DELAY_MILLIS};

verus! {

/// What a fetcher reports to the runner.
#[derive(Clone, Debug)]
pub enum FetchStatus {
    /// One request succeeded.
    Success,
    /// One request failed and will be retried.
    Failure,
    /// Worker `n` finished its batch.
    Complete(usize),
}

/// One classified HTTP exchange, as the I/O layer saw it.
#[derive(Debug)]
pub enum HttpEvent {
    /// A 200 response with its body.
    Body(Vec<u8>),
    /// A non-2xx status.
    Status(u16),
    /// No response at all: connection, TLS, DNS or timeout trouble.
    Transport(String),
}

/// What the caller must do after one exchange.
#[derive(Debug)]
pub enum FetchOutcome {
    /// Report success and send these entries, in order, to the sink.
    /// An empty list means the server returned no entries for a
    /// non-empty range: the rest of the range has been abandoned.
    Deliver(Vec<(u64, RawEntry)>),
    /// Report failure, sleep this many milliseconds, and retry.
    Backoff(u32),
}

/// The sequence `start, start + 1, …` of length `n`.
pub open spec fn consecutive(start: u64, n: nat) -> Seq<u64> {
    Seq::new(n, |k: int| (start + k) as u64)
}

/// A fetcher's range-draining state.
pub struct FetchCtl {
    start: u64,
    end: u64,
    retryer: Retryer,
    batch: Ghost<(u64, u64)>,
    delivered: Ghost<Seq<u64>>,
}

impl FetchCtl {
    /// The next entry id the fetcher will ask for.
    pub closed spec fn start(self) -> u64 {
        self.start
    }

    /// The last entry id of the current batch.
    pub closed spec fn end(self) -> u64 {
        self.end
    }

    /// The batch as it was assigned.
    pub closed spec fn batch(self) -> (u64, u64) {
        self.batch@
    }

    /// The ids delivered to the sink so far, in delivery order.
    pub closed spec fn delivered(self) -> Seq<u64> {
        self.delivered@
    }

    /// The delivered ids are exactly the consecutive ids from the
    /// batch's start, and the cursor stands behind them unless the range
    /// was abandoned.
    pub open spec fn wf(self) -> bool {
        &&& self.retryer_wf()
        &&& self.delivered() == consecutive(self.batch().0, self.delivered().len())
        &&& self.batch().0 + self.delivered().len() <= u64::MAX
        &&& (self.start() <= self.end() ==> self.start() == self.batch().0
            + self.delivered().len())
    }

    /// The backoff state is reachable.
    pub closed spec fn retryer_wf(self) -> bool {
        self.retryer.wf()
    }

    /// The base delay the next backoff will sleep at least for.
    pub closed spec fn retry_delay(self) -> u32 {
        self.retryer.delay()
    }

    /// The width of the jitter window the next backoff draws from.
    pub closed spec fn retry_scaling(self) -> u32 {
        self.retryer.scaling()
    }

    /// An idle fetcher with an empty range.
    pub fn new() -> (r: FetchCtl)
        ensures
            r.wf(),
            r.start() > r.end(),
            r.delivered() == Seq::<u64>::empty(),
    {
        let r = FetchCtl {
            start: 1,
            end: 0,
            retryer: Retryer::new(),
            batch: Ghost((1, 0)),
            delivered: Ghost(Seq::empty()),
        };
        proof {
            assert(r.delivered() =~= consecutive(r.batch().0, 0));
        }
        r
    }

    /// Assigns the batch `[start, end]` and starts draining it afresh:
    /// nothing delivered yet, backoff at its minimum.
    pub fn fetch(&mut self, start: u64, end: u64)
        ensures
            final(self).wf(),
            final(self).start() == start,
            final(self).end() == end,
            final(self).batch() == (start, end),
            final(self).delivered() == Seq::<u64>::empty(),
            final(self).retry_delay() == MIN_RETRY_DELAY_MILLIS,
            final(self).retry_scaling() == BASE_RETRY_SCALING_MILLIS,
    {
        self.start = start;
        self.end = end;
        self.retryer.reset();
        proof {
            self.batch@ = (start, end);
            self.delivered@ = Seq::empty();
            assert(self.delivered() =~= consecutive(start, 0));
        }
    }

    /// The range a request would ask for now.
    pub fn current_range(&self) -> (r: (u64, u64))
        ensures
            r == (self.start(), self.end()),
    {
        (self.start, self.end)
    }

    /// Whether the current batch is drained: the loop guard.
    pub fn done(&self) -> (r: bool)
        ensures
            r == (self.start() > self.end()),
    {
        self.start > self.end
    }

    /// Digests one HTTP exchange.
    ///
    /// A body is parsed as a `get-entries` response; its entries are
    /// paired with consecutive ids from the range's cursor and the
    /// cursor advances past them; an empty response abandons the rest of
    /// the range; either way the backoff returns to its minimum.
    /// Status 429, any 5xx and transport errors back off per the
    /// retryer.  Any other status is fatal, as is a malformed body.
    pub fn handle_event(&mut self, ev: HttpEvent) -> (r: Result<FetchOutcome, Error>)
        requires
            old(self).wf(),
            old(self).start() <= old(self).end(),
        ensures
            final(self).wf(),
            final(self).batch() == old(self).batch(),
            r matches Ok(o) ==> match o {
                FetchOutcome::Deliver(v) => {
                    &&& (ev matches HttpEvent::Body(b) ==> (spec_entries_of(b@) matches Some(es)
                        && v@.len() == es.len() && forall|k: int|
                        0 <= k < es.len() ==> (#[trigger] v@[k]).0 == old(self).start() + k
                            && v@[k].1@ == es[k]))
                    &&& (v@.len() == 0 ==> final(self).start() > final(self).end()
                        && final(self).delivered() == old(self).delivered())
                    &&& (v@.len() > 0 ==> final(self).start() == old(self).start() + v@.len()
                        && final(self).end() == old(self).end() && final(self).delivered() == old(
                        self,
                    ).delivered() + consecutive(old(self).start(), v@.len()))
                    &&& final(self).retry_delay() == MIN_RETRY_DELAY_MILLIS
                    &&& final(self).retry_scaling() == BASE_RETRY_SCALING_MILLIS
                    &&& ev is Body
                },
                FetchOutcome::Backoff(s) => {
                    &&& old(self).retry_delay() <= s < old(self).retry_delay() + old(
                        self,
                    ).retry_scaling()
                    &&& final(self).retry_delay() == failure_delay(old(self).retry_delay())
                    &&& final(self).retry_scaling() == old(self).retry_scaling()
                        + BASE_RETRY_SCALING_MILLIS
                    &&& final(self).start() == old(self).start()
                    &&& final(self).end() == old(self).end()
                    &&& final(self).delivered() == old(self).delivered()
                    &&& (ev matches HttpEvent::Status(c) ==> c == 429 || c >= 500)
                    &&& !(ev is Body)
                },
            },
            r is Err ==> final(self).end() == old(self).end() && final(self).start() == old(
                self,
            ).start() && final(self).delivered() == old(self).delivered(),
            r matches Err(e) ==> match ev {
                HttpEvent::Body(b) => match spec_entries_of(b@) {
                    None => e matches Error::JsonParseError(_, _),
                    Some(es) => e matches Error::ArithmeticOverflow(_) && es.len() > 0 && old(
                        self,
                    ).start() + es.len() > u64::MAX,
                },
                HttpEvent::Status(c) => if c == 429 || c >= 500 {
                    e matches Error::ArithmeticOverflow(_)
                } else {
                    e matches Error::RequestError(_)
                },
                HttpEvent::Transport(_) => e matches Error::ArithmeticOverflow(_),
            },
            (ev matches HttpEvent::Body(b) && spec_entries_of(b@) matches Some(es) && (es.len()
                == 0 || old(self).start() + es.len() <= u64::MAX)) ==> r is Ok,
            (ev matches HttpEvent::Status(c) && (c == 429 || c >= 500) && backoff_cannot_overflow(
                *old(self),
            )) ==> r is Ok,
            (ev is Transport && backoff_cannot_overflow(*old(self))) ==> r is Ok,
    {
        match ev {
            HttpEvent::Body(b) => {
                let entries = match parse_get_entries(b.as_slice()) {
                    Ok(es) => es,
                    Err(e) => {
                        return Err(e);
                    },
                };
                self.retryer.reset();
                let n = entries.len();
                if n == 0 {
                    self.start = 1;
                    self.end = 0;
                    return Ok(FetchOutcome::Deliver(Vec::new()));
                }
                let new_start: u64 = match self.start.checked_add(n as u64) {
                    Some(s) => s,
                    None => {
                        return Err(Error::arithmetic("calculating start of next fetch range"));
                    },
                };
                let ghost origv = entries@;
                let mut src = entries;
                let mut out: Vec<(u64, RawEntry)> = Vec::new();
                let mut k: usize = 0;
                while k < n
                    invariant
                        k <= n,
                        n == origv.len(),
                        src@ == origv.skip(k as int),
                        self.start() + n <= u64::MAX,
                        out@.len() == k,
                        forall|j: int|
                            0 <= j < k ==> (#[trigger] out@[j]).0 == self.start() + j && out@[j].1
                                == origv[j],
                    decreases n - k,
                {
                    let e = src.remove(0);
                    let id: u64 = self.start + (k as u64);
                    out.push((id, e));
                    proof {
                        assert(src@ =~= origv.skip(k + 1 as int));
                    }
                    k = k + 1;
                }
                proof {
                    self.delivered@ = self.delivered@ + consecutive(self.start, n as nat);
                    assert(self.delivered@ =~= consecutive(
                        self.batch@.0,
                        self.delivered@.len(),
                    ));
                }
                self.start = new_start;
                Ok(FetchOutcome::Deliver(out))
            },
            HttpEvent::Status(code) => {
                if code == 429 || code >= 500 {
                    match self.retryer.failure() {
                        Ok(snooze) => Ok(FetchOutcome::Backoff(snooze)),
                        Err(e) => Err(e),
                    }
                } else {
                    Err(Error::RequestError("unexpected HTTP status".to_owned()))
                }
            },
            HttpEvent::Transport(_msg) => {
                match self.retryer.failure() {
                    Ok(snooze) => Ok(FetchOutcome::Backoff(snooze)),
                    Err(e) => Err(e),
                }
            },
        }
    }
}

/// The retryer arithmetic of one more backoff cannot overflow: the
/// jittered sum and the widened window both fit.
pub open spec fn backoff_cannot_overflow(ctl: FetchCtl) -> bool {
    ctl.retry_delay() + ctl.retry_scaling() - 1 <= u32::MAX && ctl.retry_scaling()
        + BASE_RETRY_SCALING_MILLIS <= u32::MAX
}

/// Per-batch delivery law: when a batch has been drained by deliveries
/// alone — as many entries delivered as the batch holds — the delivered
/// ids are exactly the batch's ids, each exactly once, in strictly
/// ascending order.
pub proof fn lemma_drain_exact(ctl: FetchCtl)
    requires
        ctl.wf(),
        ctl.batch().0 <= ctl.batch().1,
        ctl.delivered().len() == ctl.batch().1 - ctl.batch().0 + 1,
    ensures
        forall|id: u64|
            ctl.batch().0 <= id <= ctl.batch().1 <==> #[trigger] ctl.delivered().contains(id),
        forall|k: int, l: int|
            0 <= k < l < ctl.delivered().len() ==> ctl.delivered()[k] < ctl.delivered()[l],
{
    let d = ctl.delivered();
    let s = ctl.batch().0;
    assert forall|id: u64| s <= id <= ctl.batch().1 implies #[trigger] d.contains(id) by {
        assert(d[id - s] == id);
    }
}

} // verus!
