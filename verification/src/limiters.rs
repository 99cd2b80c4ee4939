//! The rate-limiting traits.
//!
//! A call to a limiter does not wait by itself: it returns a `Wait`, an exact
//! description of the waiting that an executor has to carry out before the
//! caller may proceed (which semaphore to draw from, how many permits, how long
//! to hold them). Each trait ties that description to the limiter's state by a
//! spec function, so a caller knows precisely what it will wait for.
use vstd::prelude::*;

verus! {

/// A per-call rate limiter, where each call has an implied cost of 1 permit.
///
/// See `SlidingWindowRateLimiter` for a common use case.
pub trait RateLimiter {
    /// What the executor must carry out before the call may proceed.
    type Wait;

    /// The wait that a call on this limiter's current state hands out.
    spec fn ready_wait(&self) -> Self::Wait;

    fn wait_until_ready(&mut self) -> (w: Self::Wait)
        ensures
            w == old(self).ready_wait(),
    ;
}

/// A cost-based rate limiter, where each call can be of a variable cost.
///
/// Calls that cost more than all potentially available permits will never be
/// served: the executor waits on them forever.
///
/// See `TokenBucketRateLimiter` for a common use case.
pub trait VariableCostRateLimiter {
    /// What the executor must carry out before the call may proceed.
    type Wait;

    /// The wait that a call of `cost` on this limiter's current state hands out.
    spec fn cost_wait(&self, cost: usize) -> Self::Wait;

    fn wait_with_cost(&mut self, cost: usize) -> (w: Self::Wait)
        ensures
            w == old(self).cost_wait(cost),
    ;
}

/// A threadsafe per-call rate limiter, where each call has an implied cost of 1 permit.
///
/// See `SlidingWindowRateLimiter` for a common use case.
pub trait ThreadsafeRateLimiter {
    /// What the executor must carry out before the call may proceed.
    type Wait;

    /// The wait that a call on this limiter hands out.
    spec fn ready_wait(&self) -> Self::Wait;

    fn wait_until_ready(&self) -> (w: Self::Wait)
        ensures
            w == self.ready_wait(),
    ;
}

/// Every `ThreadsafeRateLimiter` is a `RateLimiter`, since `&mut self` can be
/// passed as `&self`: the call hands out exactly the threadsafe limiter's wait.
impl<L: ThreadsafeRateLimiter> RateLimiter for L {
    type Wait = <L as ThreadsafeRateLimiter>::Wait;

    open spec fn ready_wait(&self) -> Self::Wait {
        ThreadsafeRateLimiter::ready_wait(self)
    }

    /// The limiter itself is left unchanged.
    fn wait_until_ready(&mut self) -> (w: Self::Wait)
        ensures
            *final(self) == *old(self),
    {
        <Self as ThreadsafeRateLimiter>::wait_until_ready(self)
    }
}

/// A threadsafe cost-based rate limiter, where each call can be of a variable cost.
///
/// Calls that cost more than all potentially available permits will never be
/// served: the executor waits on them forever.
///
/// See `TokenBucketRateLimiter` for a common use case.
pub trait ThreadsafeVariableRateLimiter {
    /// What the executor must carry out before the call may proceed.
    type Wait;

    /// The wait that a call of `cost` on this limiter hands out.
    spec fn cost_wait(&self, cost: usize) -> Self::Wait;

    fn wait_with_cost(&self, cost: usize) -> (w: Self::Wait)
        ensures
            w == self.cost_wait(cost),
    ;
}

/// Every `ThreadsafeVariableRateLimiter` is a `VariableCostRateLimiter`, since
/// `&mut self` can be passed as `&self`: the call hands out exactly the
/// threadsafe limiter's wait.
impl<L: ThreadsafeVariableRateLimiter> VariableCostRateLimiter for L {
    type Wait = <L as ThreadsafeVariableRateLimiter>::Wait;

    open spec fn cost_wait(&self, cost: usize) -> Self::Wait {
        ThreadsafeVariableRateLimiter::cost_wait(self, cost)
    }

    /// The limiter itself is left unchanged.
    fn wait_with_cost(&mut self, cost: usize) -> (w: Self::Wait)
        ensures
            *final(self) == *old(self),
    {
        <Self as ThreadsafeVariableRateLimiter>::wait_with_cost(self, cost)
    }
}

} // verus!
