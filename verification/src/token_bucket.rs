//! A token bucket rate limiter: a bucket of at most `max_tokens` tokens that
//! calls spend, refilled with `replace_amount` tokens every `replace_duration`.
//!
//! Tokens are permits of a semaphore. A call takes its tokens from the
//! semaphore and files them in the list of acquired tokens; every period the
//! replenishing task gives back the oldest `replace_amount` of them (or all, if
//! fewer are held). Only tokens that calls took are ever given back, so the
//! bucket never holds more than it started with.
use std::sync::Arc;
use core::time::Duration;
use tokio::sync::{Mutex, OwnedSemaphorePermit, Semaphore};
use tokio::task::JoinHandle;
use vstd::prelude::*;
use crate::limiters::VariableCostRateLimiter;
use crate::tokio_specs::{
    abort_task, created_holding, created_permits, new_semaphore, new_token_list, share, MAX_PERMITS,
};

verus! {

/// A classic token bucket rate limiter, whose calls wait indefinitely for
/// tokens to become available.
///
/// Trying to acquire more tokens than the bucket can ever hold waits forever.
#[derive(Debug)]
pub struct TokenBucketRateLimiter {
    /// Potentially shared, mutable state required to implement the token bucket scheme.
    state: Arc<Mutex<TokenBucketState>>,
}

/// All the state of a token bucket, which many `TokenBucketRateLimiter`s can
/// share (for instance the endpoints of one API that count against one limit).
#[derive(Debug)]
pub struct TokenBucketState {
    /// The bucket: starting and maximal tokens.
    tokens: Arc<Semaphore>,
    /// Number of tokens to be replaced every `replace_duration`.
    replace_amount: usize,
    /// Duration after which `replace_amount` tokens are added to the bucket (unless it's full).
    replace_duration: Duration,
    /// Storage for acquired tokens, oldest first.
    acquired_tokens: Arc<Mutex<Vec<OwnedSemaphorePermit>>>,
    /// The task that replaces `replace_amount` tokens every `replace_duration`, once started.
    replenish_task: Option<JoinHandle<()>>,
}

/// What a `TokenBucketState` is, to a caller.
pub struct TokenBucketView {
    pub tokens: Arc<Semaphore>,
    pub replace_amount: usize,
    pub replace_duration: Duration,
    pub acquired_tokens: Arc<Mutex<Vec<OwnedSemaphorePermit>>>,
    pub replenish_task: Option<JoinHandle<()>>,
}

/// The replenishing task to start: on every tick of a `replace_duration`
/// interval, ask `releases_on_tick` whether that tick replenishes, and if so
/// lock `acquired_tokens` and call `release_tokens` with `replace_amount`.
#[derive(Debug)]
pub struct Replenisher {
    pub acquired_tokens: Arc<Mutex<Vec<OwnedSemaphorePermit>>>,
    pub replace_amount: usize,
    pub replace_duration: Duration,
}

/// What acquiring `n_tokens` tokens takes: start `replenisher` if there is one
/// (and record it with `set_replenish_task`), take `n_tokens` permits one at a
/// time from `tokens`, then lock `acquired_tokens` and file them with
/// `store_tokens`.
///
/// `tokens` is the bucket itself. It is handed out for the executor to take
/// this request's tokens from, and for nothing else: the bucket must not be
/// shared outside its state, or the state's count of tokens means nothing.
#[derive(Debug)]
pub struct TokenRequest {
    pub replenisher: Option<Replenisher>,
    pub tokens: Arc<Semaphore>,
    pub n_tokens: usize,
    pub acquired_tokens: Arc<Mutex<Vec<OwnedSemaphorePermit>>>,
}

/// The wait a call on a `TokenBucketRateLimiter` hands out: lock `state`, then
/// carry out its `acquire_tokens(cost)`.
#[derive(Debug)]
pub struct BucketWait {
    pub state: Arc<Mutex<TokenBucketState>>,
    pub cost: usize,
}

/// The replenishing task that a state still has to start: none once one runs.
pub open spec fn replenisher_for(v: TokenBucketView) -> Option<Replenisher> {
    if v.replenish_task is Some {
        None
    } else {
        Some(
            Replenisher {
                acquired_tokens: v.acquired_tokens,
                replace_amount: v.replace_amount,
                replace_duration: v.replace_duration,
            },
        )
    }
}

/// The request for `n_tokens` tokens from a state.
pub open spec fn token_request(v: TokenBucketView, n_tokens: usize) -> TokenRequest {
    TokenRequest {
        replenisher: replenisher_for(v),
        tokens: v.tokens,
        n_tokens,
        acquired_tokens: v.acquired_tokens,
    }
}

/// How many tokens one replenishment gives back: `replace_amount`, or all that
/// are held if fewer.
pub open spec fn release_count(replace_amount: usize, held: nat) -> nat {
    if replace_amount < held {
        replace_amount as nat
    } else {
        held
    }
}

/// The tokens still held after one replenishment: the oldest ones leave first.
pub open spec fn after_release<T>(held: Seq<T>, replace_amount: usize) -> Seq<T> {
    held.skip(release_count(replace_amount, held.len()) as int)
}

/// One change of the list of acquired tokens: an acquisition filing the tokens
/// it took (`store_tokens`), or a replenishment (`release_tokens`).
pub enum LedgerStep<T> {
    Store(Seq<T>),
    Replenish(usize),
}

/// The acquired tokens after the steps, starting from `held`.
pub open spec fn held_after<T>(held: Seq<T>, steps: Seq<LedgerStep<T>>) -> Seq<T>
    decreases steps.len(),
{
    if steps.len() == 0 {
        held
    } else {
        let before = held_after(held, steps.drop_last());
        match steps.last() {
            LedgerStep::Store(tokens) => before + tokens,
            LedgerStep::Replenish(replace_amount) => after_release(before, replace_amount),
        }
    }
}

/// The tokens the steps' replenishments give back to the bucket, starting from `held`.
pub open spec fn released_in<T>(held: Seq<T>, steps: Seq<LedgerStep<T>>) -> nat
    decreases steps.len(),
{
    if steps.len() == 0 {
        0
    } else {
        let before = held_after(held, steps.drop_last());
        released_in(held, steps.drop_last()) + match steps.last() {
            LedgerStep::Store(_) => 0,
            LedgerStep::Replenish(replace_amount) => release_count(replace_amount, before.len()),
        }
    }
}

/// The tokens the steps' acquisitions file, in the order they were filed.
pub open spec fn stored_in<T>(steps: Seq<LedgerStep<T>>) -> Seq<T>
    decreases steps.len(),
{
    if steps.len() == 0 {
        Seq::empty()
    } else {
        stored_in(steps.drop_last()) + match steps.last() {
            LedgerStep::Store(tokens) => tokens,
            LedgerStep::Replenish(_) => Seq::empty(),
        }
    }
}

/// The sum of the replacement amounts of the steps' replenishments.
pub open spec fn replace_total<T>(steps: Seq<LedgerStep<T>>) -> nat
    decreases steps.len(),
{
    if steps.len() == 0 {
        0
    } else {
        replace_total(steps.drop_last()) + match steps.last() {
            LedgerStep::Store(_) => 0nat,
            LedgerStep::Replenish(replace_amount) => replace_amount as nat,
        }
    }
}

/// Replenishment gives back only tokens that acquisitions took, oldest first:
/// over any run of acquisitions and replenishments, the tokens given back are
/// at most those held at the start plus those filed since, and the tokens still
/// held are exactly the most recent ones, in the order they were taken. So the
/// bucket never holds more tokens than it started with, however long it idles.
pub proof fn lemma_oldest_tokens_leave_first<T>(held: Seq<T>, steps: Seq<LedgerStep<T>>)
    ensures
        released_in(held, steps) <= held.len() + stored_in(steps).len(),
        held_after(held, steps) == (held + stored_in(steps)).skip(released_in(held, steps) as int),
    decreases steps.len(),
{
    if steps.len() > 0 {
        let prev = steps.drop_last();
        lemma_oldest_tokens_leave_first(held, prev);
        let all_prev = held + stored_in(prev);
        let r = released_in(held, prev);
        match steps.last() {
            LedgerStep::Store(tokens) => {
                assert(held + stored_in(steps) =~= all_prev + tokens);
                assert((all_prev + tokens).skip(r as int) =~= all_prev.skip(r as int) + tokens);
            },
            LedgerStep::Replenish(replace_amount) => {
                assert(held + stored_in(steps) =~= all_prev);
                let before = held_after(held, prev);
                let c = release_count(replace_amount, before.len());
                assert(before.skip(c as int) =~= all_prev.skip((r + c) as int));
            },
        }
    }
}

/// Tokens come back at the replenishment rate: the steps' replenishments give
/// back at most the sum of their replacement amounts (`n * replace_amount`
/// after `n` periods of one state), whatever is held.
pub proof fn lemma_release_rate<T>(held: Seq<T>, steps: Seq<LedgerStep<T>>)
    ensures
        released_in(held, steps) <= replace_total(steps),
    decreases steps.len(),
{
    if steps.len() > 0 {
        lemma_release_rate(held, steps.drop_last());
    }
}

/// The acquired-token list a state was created with.
pub open spec fn initial_tokens(v: TokenBucketView) -> Seq<OwnedSemaphorePermit> {
    created_holding(*v.acquired_tokens)
}

/// What a new bucket serves: starting from the empty list that `new` files
/// tokens in, as long as the bucket's semaphore lends out at most the
/// `max_tokens` it was created with (so the tokens held in the list never
/// exceed them), the tokens that acquisitions take add up to at most
/// `max_tokens` plus the replacement amounts of the replenishments so far, and
/// replenishment never gives back more than was taken: the bucket never holds
/// more than `max_tokens`.
pub proof fn lemma_bucket_serves_at_most(
    state: TokenBucketState,
    steps: Seq<LedgerStep<OwnedSemaphorePermit>>,
)
    requires
        created_holding(*state@.acquired_tokens) == Seq::<OwnedSemaphorePermit>::empty(),
        held_after(created_holding(*state@.acquired_tokens), steps).len() <= created_permits(
            *state@.tokens,
        ),
    ensures
        released_in(created_holding(*state@.acquired_tokens), steps) <= stored_in(steps).len(),
        stored_in(steps).len() <= created_permits(*state@.tokens) + replace_total(steps),
{
    let start = initial_tokens(state@);
    lemma_oldest_tokens_leave_first(start, steps);
    lemma_release_rate(start, steps);
    assert(start + stored_in(steps) =~= stored_in(steps));
}

impl Replenisher {
    /// Whether the replenishing task gives tokens back on its `tick`-th tick,
    /// counting from 0. An interval's first tick completes at once, so it is
    /// skipped: there is no replenishment on startup, and the first comes one
    /// period after the task starts.
    pub fn releases_on_tick(&self, tick: u64) -> (releases: bool)
        ensures
            releases == (tick >= 1),
    {
        tick >= 1
    }
}

/// One replenishment gives back `replace_amount` tokens when more are held,
/// and every held token otherwise: never more than either, and no fewer than
/// the smaller of the two. The tokens kept are the newest ones, in order.
pub proof fn lemma_release_is_exact<T>(held: Seq<T>, replace_amount: usize)
    ensures
        release_count(replace_amount, held.len()) <= replace_amount,
        release_count(replace_amount, held.len()) <= held.len(),
        release_count(replace_amount, held.len()) == replace_amount
            || release_count(replace_amount, held.len()) == held.len(),
        after_release(held, replace_amount).len() + release_count(replace_amount, held.len())
            == held.len(),
        forall|i: int|
            0 <= i < after_release(held, replace_amount).len() ==> #[trigger] after_release(
                held,
                replace_amount,
            )[i] == held[held.len() - after_release(held, replace_amount).len() + i],
{
}

/// A replenishment whose amount is at least what is held gives back every held
/// token and empties the list: an idle bucket refills completely.
pub proof fn lemma_replenish_empties<T>(held: Seq<T>, replace_amount: usize)
    requires
        held.len() <= replace_amount,
    ensures
        after_release(held, replace_amount).len() == 0,
        release_count(replace_amount, held.len()) == held.len(),
{
}

/// The replenishing task a state starts carries the state's own settings and
/// list, and a state starts one exactly when none runs yet.
pub proof fn lemma_replenisher_carries_settings(v: TokenBucketView)
    ensures
        replenisher_for(v) is Some <==> v.replenish_task is None,
        replenisher_for(v) matches Some(r) ==> {
            &&& r.replace_amount == v.replace_amount
            &&& r.replace_duration == v.replace_duration
            &&& r.acquired_tokens == v.acquired_tokens
        },
{
}

/// Acquiring `n_tokens` tokens asks for exactly that many, from the state's
/// own bucket, filed in the state's own list; two acquisitions on one state
/// differ only in how many tokens they take.
pub proof fn lemma_request_is_exact(v: TokenBucketView, n: usize, m: usize)
    ensures
        token_request(v, n).n_tokens == n,
        token_request(v, n).tokens == v.tokens,
        token_request(v, n).acquired_tokens == v.acquired_tokens,
        token_request(v, n).replenisher == token_request(v, m).replenisher,
        n <= m ==> token_request(v, m).n_tokens - token_request(v, n).n_tokens == m - n,
        token_request(v, n).replenisher matches Some(r) ==> r.replace_amount == v.replace_amount,
{
}

/// A limiter's call hands out the caller's cost unchanged, on the limiter's
/// own state; calls of different costs on one limiter differ only in the cost.
pub proof fn lemma_bucket_wait_is_exact(limiter: TokenBucketRateLimiter, a: usize, b: usize)
    ensures
        VariableCostRateLimiter::cost_wait(&limiter, a).cost == a,
        VariableCostRateLimiter::cost_wait(&limiter, a).state == limiter@,
        VariableCostRateLimiter::cost_wait(&limiter, a).state == VariableCostRateLimiter::cost_wait(
            &limiter,
            b,
        ).state,
        a <= b ==> VariableCostRateLimiter::cost_wait(&limiter, b).cost
            - VariableCostRateLimiter::cost_wait(&limiter, a).cost == b - a,
{
}

impl View for TokenBucketState {
    type V = TokenBucketView;

    closed spec fn view(&self) -> TokenBucketView {
        TokenBucketView {
            tokens: self.tokens,
            replace_amount: self.replace_amount,
            replace_duration: self.replace_duration,
            acquired_tokens: self.acquired_tokens,
            replenish_task: self.replenish_task,
        }
    }
}

impl Drop for TokenBucketState {
    /// Stops the replenishing task, if one was started, and forgets it.
    fn drop(&mut self)
        ensures
            final(self)@ == (TokenBucketView { replenish_task: None, ..old(self)@ }),
        opens_invariants none
        no_unwind
    {
        if let Some(task) = &self.replenish_task {
            abort_task(task);
        }
        self.replenish_task = None;
    }
}

impl TokenBucketState {
    /// Creates a new `TokenBucketState` with a full bucket of `max_tokens` that
    /// will be replenished with `replace_amount` tokens every `replace_duration`.
    /// No replenishing task runs until the first acquisition.
    ///
    /// tokio refuses a semaphore of more than `MAX_PERMITS` permits, so
    /// `max_tokens` may not exceed it.
    pub fn new(max_tokens: usize, replace_amount: usize, replace_duration: Duration) -> (state: Self)
        requires
            max_tokens <= MAX_PERMITS,
        ensures
            created_permits(*state@.tokens) == max_tokens,
            created_holding(*state@.acquired_tokens) == Seq::<OwnedSemaphorePermit>::empty(),
            state@.replace_amount == replace_amount,
            state@.replace_duration == replace_duration,
            state@.replenish_task is None,
    {
        TokenBucketState {
            tokens: Arc::new(new_semaphore(max_tokens)),
            replace_amount,
            replace_duration,
            acquired_tokens: Arc::new(new_token_list(Vec::new())),
            replenish_task: None,
        }
    }

    /// The replenishing task to start, if none runs yet.
    pub fn create_task_if_none(&self) -> (replenisher: Option<Replenisher>)
        ensures
            replenisher == replenisher_for(self@),
            replenisher is Some <==> self@.replenish_task is None,
            replenisher matches Some(r) ==> {
                &&& r.replace_amount == self@.replace_amount
                &&& r.replace_duration == self@.replace_duration
                &&& r.acquired_tokens == self@.acquired_tokens
            },
    {
        if self.replenish_task.is_none() {
            Some(
                Replenisher {
                    acquired_tokens: share(&self.acquired_tokens),
                    replace_amount: self.replace_amount,
                    replace_duration: self.replace_duration,
                },
            )
        } else {
            None
        }
    }

    /// Records the replenishing task that was started.
    pub fn set_replenish_task(&mut self, task: JoinHandle<()>)
        requires
            old(self)@.replenish_task is None,
        ensures
            final(self)@ == (TokenBucketView { replenish_task: Some(task), ..old(self)@ }),
    {
        self.replenish_task = Some(task);
    }

    /// What acquiring `n_tokens` tokens takes: the replenishing task to start
    /// first, if none runs, and the tokens to take.
    pub fn acquire_tokens(&self, n_tokens: usize) -> (request: TokenRequest)
        ensures
            request == token_request(self@, n_tokens),
            request.n_tokens == n_tokens,
            request.tokens == self@.tokens,
            request.acquired_tokens == self@.acquired_tokens,
            request.replenisher is Some <==> self@.replenish_task is None,
            request.replenisher matches Some(r) ==> {
                &&& r.replace_amount == self@.replace_amount
                &&& r.replace_duration == self@.replace_duration
                &&& r.acquired_tokens == self@.acquired_tokens
            },
    {
        let replenisher = self.create_task_if_none();
        TokenRequest {
            replenisher,
            tokens: share(&self.tokens),
            n_tokens,
            acquired_tokens: share(&self.acquired_tokens),
        }
    }

    /// Files newly taken tokens after those already held.
    pub fn store_tokens(
        acquired: &mut Vec<OwnedSemaphorePermit>,
        tokens: Vec<OwnedSemaphorePermit>,
    )
        ensures
            final(acquired)@ == old(acquired)@ + tokens@,
    {
        let mut tokens = tokens;
        acquired.append(&mut tokens);
    }

    /// One replenishment: gives the oldest `replace_amount` held tokens back to
    /// the bucket (all of them if fewer are held) and returns how many it gave.
    pub fn release_tokens(
        replace_amount: usize,
        acquired_tokens: &mut Vec<OwnedSemaphorePermit>,
    ) -> (released: usize)
        ensures
            released == release_count(replace_amount, old(acquired_tokens)@.len()),
            final(acquired_tokens)@ == after_release(old(acquired_tokens)@, replace_amount),
            released == (if replace_amount < old(acquired_tokens)@.len() {
                replace_amount as nat
            } else {
                old(acquired_tokens)@.len()
            }),
            final(acquired_tokens)@ == old(acquired_tokens)@.subrange(
                released as int,
                old(acquired_tokens)@.len() as int,
            ),
    {
        let held = acquired_tokens.len();
        let release_amount = if replace_amount < held {
            replace_amount
        } else {
            held
        };
        let kept = acquired_tokens.split_off(release_amount);
        *acquired_tokens = kept;
        release_amount
    }
}

impl View for TokenBucketRateLimiter {
    type V = Arc<Mutex<TokenBucketState>>;

    closed spec fn view(&self) -> Arc<Mutex<TokenBucketState>> {
        self.state
    }
}

impl TokenBucketRateLimiter {
    /// Creates a new `TokenBucketRateLimiter` using an established
    /// `TokenBucketState`, which can be this limiter's alone or shared with
    /// many other limiters.
    pub fn new(token_bucket_state: Arc<Mutex<TokenBucketState>>) -> (limiter: Self)
        ensures
            limiter@ == token_bucket_state,
    {
        TokenBucketRateLimiter { state: token_bucket_state }
    }
}

impl Clone for TokenBucketRateLimiter {
    /// A clone shares the same underlying state.
    fn clone(&self) -> (limiter: Self)
        ensures
            limiter@ == self@,
    {
        TokenBucketRateLimiter { state: share(&self.state) }
    }
}

impl VariableCostRateLimiter for TokenBucketRateLimiter {
    type Wait = BucketWait;

    open spec fn cost_wait(&self, cost: usize) -> BucketWait {
        BucketWait { state: self@, cost }
    }

    /// Wait for `cost` tokens from the shared state; the limiter itself is unchanged.
    fn wait_with_cost(&mut self, cost: usize) -> (w: BucketWait)
        ensures
            *final(self) == *old(self),
            w.cost == cost,
            w.state == old(self)@,
    {
        BucketWait { state: share(&self.state), cost }
    }
}

} // verus!
