//! A rate limiter that records calls (optionally with a cost) during a sliding
//! window of time.
//!
//! Each call draws its cost in permits from a shared semaphore and holds them
//! for the length of the window before they return to the semaphore, so that
//! no window of that length admits more than the semaphore's permits.
use std::sync::Arc;
use core::time::Duration;
use tokio::sync::Semaphore;
use vstd::prelude::*;
use crate::limiters::{
    RateLimiter, ThreadsafeRateLimiter, ThreadsafeVariableRateLimiter, VariableCostRateLimiter,
};
use crate::tokio_specs::{created_permits, new_semaphore, share, MAX_PERMITS};

verus! {

/// A rate limiter that records calls (optionally with a specified cost) during
/// a sliding window `Duration`.
///
/// It implements both `ThreadsafeRateLimiter` and `ThreadsafeVariableRateLimiter`
/// (and through them `RateLimiter` and `VariableCostRateLimiter`), and
/// `wait_until_ready` hands out the same wait as `wait_with_cost(1)`.
#[derive(Debug)]
pub struct SlidingWindowRateLimiter {
    /// Length of the window, i.e. a permit acquired at T is released at T + window.
    window: Duration,
    /// Number of calls (or cost thereof) allowed during a given sliding window.
    permits: Arc<Semaphore>,
}

/// What a limiter is, to a caller: its window and the permit pool it draws from.
pub struct SlidingWindowView {
    pub window: Duration,
    pub permits: Arc<Semaphore>,
}

/// The wait a call on a `SlidingWindowRateLimiter` hands out: acquire `count`
/// permits from `permits` (waiting until the semaphore can grant them all),
/// then proceed, and give the permits back `hold_for` after they were granted.
/// A count that no tokio semaphore can ever grant is never served: the
/// executor waits on it forever (see `PermitRequest::grant_chunks`).
#[derive(Debug)]
pub struct PermitRequest {
    pub permits: Arc<Semaphore>,
    pub count: usize,
    pub hold_for: Duration,
}

/// The request a call of `count` permits on a limiter with this view makes.
pub open spec fn permit_request(v: SlidingWindowView, count: usize) -> PermitRequest {
    PermitRequest { permits: v.permits, count, hold_for: v.window }
}

/// Whether a tokio semaphore can ever grant `count` permits: none holds more
/// than `MAX_PERMITS`.
pub open spec fn can_be_granted(count: usize) -> bool {
    count <= MAX_PERMITS
}

/// The total of the pieces.
pub open spec fn chunk_total(chunks: Seq<u32>) -> nat
    decreases chunks.len(),
{
    if chunks.len() == 0 {
        0
    } else {
        chunk_total(chunks.drop_last()) + chunks.last() as nat
    }
}

impl PermitRequest {
    /// How to take the request's permits from tokio, which takes a count as a
    /// `u32`: in pieces that add up to the whole count, one piece when the
    /// count fits a `u32`. `None` when no semaphore can ever grant the count,
    /// so that the call waits forever rather than proceed having taken fewer
    /// permits than it costs.
    pub fn grant_chunks(&self) -> (chunks: Option<Vec<u32>>)
        ensures
            chunks is Some <==> can_be_granted(self.count),
            chunks matches Some(v) ==> chunk_total(v@) == self.count,
            chunks matches Some(v) ==> (self.count <= u32::MAX ==> v@ == seq![
                self.count as u32,
            ]),
    {
        if self.count > MAX_PERMITS {
            return None;
        }
        let mut chunks: Vec<u32> = Vec::new();
        if self.count <= u32::MAX as usize {
            chunks.push(self.count as u32);
            proof {
                assert(chunks@.drop_last() =~= Seq::<u32>::empty());
                assert(chunk_total(Seq::<u32>::empty()) == 0);
                assert(chunk_total(chunks@) == self.count);
            }
            assert(chunks@ =~= seq![self.count as u32]);
            return Some(chunks);
        }
        let mut remaining: usize = self.count;
        while remaining > 0
            invariant
                chunk_total(chunks@) + remaining == self.count,
            decreases remaining,
        {
            let piece: u32 = if remaining <= u32::MAX as usize {
                remaining as u32
            } else {
                u32::MAX
            };
            let ghost before = chunks@;
            chunks.push(piece);
            proof {
                assert(chunks@.drop_last() =~= before);
            }
            remaining = remaining - piece as usize;
        }
        Some(chunks)
    }
}

impl View for SlidingWindowRateLimiter {
    type V = SlidingWindowView;

    closed spec fn view(&self) -> SlidingWindowView {
        SlidingWindowView { window: self.window, permits: self.permits }
    }
}

impl SlidingWindowRateLimiter {
    /// Creates a new `SlidingWindowRateLimiter` that allows `limit` calls during
    /// any `window` Duration, drawing on a new semaphore of `limit` permits.
    ///
    /// tokio refuses a semaphore of more than `MAX_PERMITS` permits, so `limit`
    /// may not exceed it.
    pub fn new(window: Duration, limit: usize) -> (limiter: Self)
        requires
            limit <= MAX_PERMITS,
        ensures
            limiter@.window == window,
            created_permits(*limiter@.permits) == limit,
    {
        let permits = Arc::new(new_semaphore(limit));
        SlidingWindowRateLimiter { window, permits }
    }

    /// Creates a new `SlidingWindowRateLimiter` with an externally provided
    /// `Arc<Semaphore>` for permits.
    ///
    /// Limiters built over the same semaphore share its permits: this is the same
    /// as building one limiter with `new` and cloning it.
    pub fn new_with_permits(window: Duration, permits: Arc<Semaphore>) -> (limiter: Self)
        ensures
            limiter@ == (SlidingWindowView { window, permits }),
    {
        SlidingWindowRateLimiter { window, permits }
    }

    /// The length of the window.
    pub fn window(&self) -> (window: Duration)
        ensures
            window == self@.window,
    {
        self.window
    }

    /// The semaphore whose permits this limiter spends.
    pub fn permits(&self) -> (permits: Arc<Semaphore>)
        ensures
            permits == self@.permits,
    {
        share(&self.permits)
    }
}

impl Clone for SlidingWindowRateLimiter {
    /// A clone has the same window and shares the same permits.
    fn clone(&self) -> (limiter: Self)
        ensures
            limiter@ == self@,
    {
        SlidingWindowRateLimiter { window: self.window, permits: share(&self.permits) }
    }
}

impl ThreadsafeRateLimiter for SlidingWindowRateLimiter {
    type Wait = PermitRequest;

    open spec fn ready_wait(&self) -> PermitRequest {
        permit_request(self@, 1)
    }

    /// Wait with an implied cost of 1: one permit, held for the window.
    fn wait_until_ready(&self) -> (w: PermitRequest)
        ensures
            w.count == 1,
            w.permits == self@.permits,
            w.hold_for == self@.window,
    {
        PermitRequest { permits: share(&self.permits), count: 1, hold_for: self.window }
    }
}

impl ThreadsafeVariableRateLimiter for SlidingWindowRateLimiter {
    type Wait = PermitRequest;

    /// The whole cost is requested, whatever it is.
    open spec fn cost_wait(&self, cost: usize) -> PermitRequest {
        permit_request(self@, cost)
    }

    /// Wait with some variable cost per usage: `cost` permits, held for the window.
    fn wait_with_cost(&self, cost: usize) -> (w: PermitRequest)
        ensures
            w.count == cost,
            w.permits == self@.permits,
            w.hold_for == self@.window,
    {
        PermitRequest { permits: share(&self.permits), count: cost, hold_for: self.window }
    }
}

/// A call requests its whole cost, no more and no less, from the limiter's
/// own semaphore, to be held for the limiter's window; a call through
/// `wait_until_ready` requests one permit. This holds for every limiter and
/// every cost, through the threadsafe traits and the blanket ones.
pub proof fn lemma_whole_cost_requested(limiter: SlidingWindowRateLimiter, cost: usize)
    ensures
        ThreadsafeVariableRateLimiter::cost_wait(&limiter, cost).count == cost,
        ThreadsafeVariableRateLimiter::cost_wait(&limiter, cost).permits == limiter@.permits,
        ThreadsafeVariableRateLimiter::cost_wait(&limiter, cost).hold_for == limiter@.window,
        VariableCostRateLimiter::cost_wait(&limiter, cost).count == cost,
        ThreadsafeRateLimiter::ready_wait(&limiter).count == 1,
        ThreadsafeRateLimiter::ready_wait(&limiter).permits == limiter@.permits,
        ThreadsafeRateLimiter::ready_wait(&limiter).hold_for == limiter@.window,
        RateLimiter::ready_wait(&limiter).count == 1,
{
}

/// Two calls on one limiter differ only in what they cost: a larger cost
/// requests exactly that many more permits, from the same semaphore, for the
/// same time.
pub proof fn lemma_cost_difference(limiter: SlidingWindowRateLimiter, a: usize, b: usize)
    requires
        a <= b,
    ensures
        ThreadsafeVariableRateLimiter::cost_wait(&limiter, b).count
            - ThreadsafeVariableRateLimiter::cost_wait(&limiter, a).count == b - a,
        ThreadsafeVariableRateLimiter::cost_wait(&limiter, a).permits
            == ThreadsafeVariableRateLimiter::cost_wait(&limiter, b).permits,
        ThreadsafeVariableRateLimiter::cost_wait(&limiter, a).hold_for
            == ThreadsafeVariableRateLimiter::cost_wait(&limiter, b).hold_for,
{
}

/// `wait_until_ready` and `wait_with_cost(1)` have the same effect: on any
/// limiter, through the threadsafe traits or the blanket ones, they hand out the
/// same request.
pub proof fn lemma_ready_is_unit_cost(limiter: SlidingWindowRateLimiter)
    ensures
        ThreadsafeRateLimiter::ready_wait(&limiter) == ThreadsafeVariableRateLimiter::cost_wait(
            &limiter,
            1,
        ),
        RateLimiter::ready_wait(&limiter) == VariableCostRateLimiter::cost_wait(&limiter, 1),
{
}

/// Limiters built over one semaphore (a limiter and its clones, or limiters made
/// by `new_with_permits` from the same `Arc`) spend the permits of that one
/// semaphore, whatever each call costs, and each holds them for its own window.
pub proof fn lemma_shared_permits(
    a: SlidingWindowRateLimiter,
    b: SlidingWindowRateLimiter,
    cost_a: usize,
    cost_b: usize,
)
    requires
        a@.permits == b@.permits,
    ensures
        ThreadsafeVariableRateLimiter::cost_wait(&a, cost_a).permits
            == ThreadsafeVariableRateLimiter::cost_wait(&b, cost_b).permits,
        ThreadsafeVariableRateLimiter::cost_wait(&a, cost_a).hold_for == a@.window,
        ThreadsafeVariableRateLimiter::cost_wait(&b, cost_b).hold_for == b@.window,
{
}

/// One grant of permits from a semaphore: `cost` permits, granted at `start`
/// and given back at `end` (both on one clock).
pub struct Grant {
    pub start: int,
    pub end: int,
    pub cost: nat,
}

/// The permits that the grants hold at time `t`.
pub open spec fn held_at(grants: Seq<Grant>, t: int) -> nat
    decreases grants.len(),
{
    if grants.len() == 0 {
        0
    } else {
        let g = grants.last();
        held_at(grants.drop_last(), t) + if g.start <= t < g.end {
            g.cost
        } else {
            0
        }
    }
}

/// The permits granted at a time in `[from, to)`.
pub open spec fn granted_between(grants: Seq<Grant>, from: int, to: int) -> nat
    decreases grants.len(),
{
    if grants.len() == 0 {
        0
    } else {
        let g = grants.last();
        granted_between(grants.drop_last(), from, to) + if from <= g.start < to {
            g.cost
        } else {
            0
        }
    }
}

/// If every grant that starts in `[from, to)` is still held at `t`, the permits
/// granted in `[from, to)` are at most those held at `t`.
proof fn lemma_granted_held(grants: Seq<Grant>, from: int, to: int, t: int)
    requires
        forall|i: int|
            0 <= i < grants.len() && from <= #[trigger] grants[i].start < to ==> grants[i].start
                <= t < grants[i].end,
    ensures
        granted_between(grants, from, to) <= held_at(grants, t),
    decreases grants.len(),
{
    if grants.len() > 0 {
        let prefix = grants.drop_last();
        assert forall|i: int|
            0 <= i < prefix.len() && from <= #[trigger] prefix[i].start < to implies prefix[i].start
                <= t < prefix[i].end by {
            assert(prefix[i] == grants[i]);
        }
        lemma_granted_held(prefix, from, to, t);
        assert(grants.last() == grants[grants.len() - 1]);
    }
}

/// With no grant starting in `[from, to)`, nothing is granted there.
proof fn lemma_nothing_granted(grants: Seq<Grant>, from: int, to: int)
    requires
        forall|i: int| 0 <= i < grants.len() ==> !(from <= #[trigger] grants[i].start < to),
    ensures
        granted_between(grants, from, to) == 0,
    decreases grants.len(),
{
    if grants.len() > 0 {
        let prefix = grants.drop_last();
        assert forall|i: int| 0 <= i < prefix.len() implies !(from <= #[trigger] prefix[i].start
            < to) by {
            assert(prefix[i] == grants[i]);
        }
        lemma_nothing_granted(prefix, from, to);
        assert(grants.last() == grants[grants.len() - 1]);
    }
}

/// The latest start among the grants that start in `[from, to)`.
proof fn lemma_latest_start(grants: Seq<Grant>, from: int, to: int) -> (t: int)
    requires
        exists|i: int| 0 <= i < grants.len() && from <= #[trigger] grants[i].start < to,
    ensures
        from <= t < to,
        forall|i: int|
            0 <= i < grants.len() && from <= #[trigger] grants[i].start < to ==> grants[i].start
                <= t,
    decreases grants.len(),
{
    let n = grants.len() - 1;
    let prefix = grants.drop_last();
    let last = grants[n];
    if exists|i: int| 0 <= i < prefix.len() && from <= #[trigger] prefix[i].start < to {
        let u = lemma_latest_start(prefix, from, to);
        let t = if from <= last.start < to && u < last.start {
            last.start
        } else {
            u
        };
        assert forall|i: int|
            0 <= i < grants.len() && from <= #[trigger] grants[i].start < to implies grants[i].start
                <= t by {
            if i < n {
                assert(prefix[i] == grants[i]);
            }
        }
        t
    } else {
        let k = choose|i: int| 0 <= i < grants.len() && from <= #[trigger] grants[i].start < to;
        if k < n {
            assert(prefix[k] == grants[k]);
        }
        assert forall|i: int|
            0 <= i < grants.len() && from <= #[trigger] grants[i].start < to implies grants[i].start
                <= last.start by {
            if i < n {
                assert(prefix[i] == grants[i]);
                assert(from <= prefix[i].start < to);
            }
        }
        last.start
    }
}

/// The sliding-window guarantee: when a limiter's semaphore never lends out
/// more than the permits it was created with (the `limit` given to `new`), and
/// every grant of its requests is held for at least `window` (each request asks
/// for its `hold_for`, the limiter's window), then the permits granted during
/// any interval of length `window` add up to at most that limit. With one
/// permit per call, that is at most `limit` calls in any window.
pub proof fn lemma_window_admits_at_most_limit(
    limiter: SlidingWindowRateLimiter,
    grants: Seq<Grant>,
    window: int,
    from: int,
)
    requires
        forall|i: int| 0 <= i < grants.len() ==> #[trigger] grants[i].start + window <= grants[i].end,
        forall|t: int| #[trigger] held_at(grants, t) <= pool_size(limiter@),
    ensures
        granted_between(grants, from, from + window) <= pool_size(limiter@),
{
    let limit = pool_size(limiter@);
    let to = from + window;
    if exists|i: int| 0 <= i < grants.len() && from <= #[trigger] grants[i].start < to {
        let t = lemma_latest_start(grants, from, to);
        assert forall|i: int|
            0 <= i < grants.len() && from <= #[trigger] grants[i].start < to implies grants[i].start
                <= t < grants[i].end by {
            assert(grants[i].start + window <= grants[i].end);
        }
        lemma_granted_held(grants, from, to, t);
        assert(held_at(grants, t) <= limit);
    } else {
        lemma_nothing_granted(grants, from, to);
    }
}

/// The permits a limiter's semaphore was created with: `limit` for `new`.
pub open spec fn pool_size(v: SlidingWindowView) -> nat {
    created_permits(*v.permits)
}
} // verus!
