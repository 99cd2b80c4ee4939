use std::sync::Arc;
use std::time::Duration;

use async_rate_limit::limiters::VariableCostRateLimiter;
use async_rate_limit::token_bucket::{
    BucketWait, Replenisher, TokenBucketRateLimiter, TokenBucketState,
};
use tokio::sync::{Mutex, OwnedSemaphorePermit, Semaphore};
use tokio::time::{sleep, Instant};

/// Runs a replenishing task the way an executor does.
async fn replenish_on_schedule(replenisher: Replenisher) {
    let mut interval = tokio::time::interval(replenisher.replace_duration);
    let mut tick: u64 = 0;
    loop {
        interval.tick().await;
        if replenisher.releases_on_tick(tick) {
            let mut acquired = replenisher.acquired_tokens.lock().await;
            TokenBucketState::release_tokens(replenisher.replace_amount, &mut acquired);
        }
        tick = tick.saturating_add(1);
    }
}

/// Carries out a bucket wait the way an executor does.
async fn carry_out(wait: BucketWait) {
    let mut state = wait.state.lock().await;
    let request = state.acquire_tokens(wait.cost);
    if let Some(replenisher) = request.replenisher {
        let task = tokio::spawn(replenish_on_schedule(replenisher));
        state.set_replenish_task(task);
    }
    let mut tokens = Vec::with_capacity(request.n_tokens);
    for _ in 0..request.n_tokens {
        let token = request
            .tokens
            .clone()
            .acquire_owned()
            .await
            .expect("Failed to acquire tokens.");
        tokens.push(token);
    }
    let mut acquired = request.acquired_tokens.lock().await;
    TokenBucketState::store_tokens(&mut acquired, tokens);
}

/// A runtime with a clock; tests that wait pause it once they run, as
/// `tokio::time::pause` does.
fn runtime() -> tokio::runtime::Runtime {
    tokio::runtime::Builder::new_current_thread()
        .enable_time()
        .build()
        .unwrap()
}

fn permits(semaphore: &Arc<Semaphore>, n: usize) -> Vec<OwnedSemaphorePermit> {
    (0..n)
        .map(|_| semaphore.clone().try_acquire_owned().unwrap())
        .collect()
}

#[test]
fn release_gives_back_replace_amount_oldest_first() {
    let older = Arc::new(Semaphore::new(3));
    let newer = Arc::new(Semaphore::new(3));
    let mut acquired = permits(&older, 3);
    TokenBucketState::store_tokens(&mut acquired, permits(&newer, 3));
    assert_eq!(acquired.len(), 6);
    assert_eq!(older.available_permits(), 0);
    assert_eq!(newer.available_permits(), 0);

    let released = TokenBucketState::release_tokens(2, &mut acquired);
    assert_eq!(released, 2);
    assert_eq!(acquired.len(), 4);
    assert_eq!(older.available_permits(), 2);
    assert_eq!(newer.available_permits(), 0);

    let released = TokenBucketState::release_tokens(2, &mut acquired);
    assert_eq!(released, 2);
    assert_eq!(older.available_permits(), 3);
    assert_eq!(newer.available_permits(), 1);
}

#[test]
fn release_never_gives_back_more_than_held() {
    let bucket = Arc::new(Semaphore::new(10));
    let mut acquired = permits(&bucket, 4);
    let released = TokenBucketState::release_tokens(100, &mut acquired);
    assert_eq!(released, 4);
    assert!(acquired.is_empty());
    assert_eq!(bucket.available_permits(), 10);

    let released = TokenBucketState::release_tokens(100, &mut acquired);
    assert_eq!(released, 0);
    assert_eq!(bucket.available_permits(), 10);
}

#[test]
fn replenishment_follows_the_rate() {
    let bucket = Arc::new(Semaphore::new(10));
    let mut acquired = permits(&bucket, 10);
    let mut released = 0;
    for _ in 0..3 {
        released += TokenBucketState::release_tokens(2, &mut acquired);
    }
    assert_eq!(released, 6);
    assert_eq!(acquired.len(), 4);
    assert_eq!(bucket.available_permits(), 6);
}

#[test]
fn new_bucket_is_full_with_nothing_filed() {
    let rt = runtime();
    let _guard = rt.enter();
    let state = TokenBucketState::new(10, 2, Duration::from_secs(3));
    let request = state.acquire_tokens(8);
    assert_eq!(request.tokens.available_permits(), 10);
    assert!(request.acquired_tokens.try_lock().unwrap().is_empty());
}

#[test]
fn taking_eight_of_ten_leaves_two() {
    runtime().block_on(async {
        tokio::time::pause();
        let state = Arc::new(Mutex::new(TokenBucketState::new(10, 2, Duration::from_secs(3))));
        let mut limiter = TokenBucketRateLimiter::new(state.clone());
        let start = Instant::now();
        carry_out(limiter.wait_with_cost(8)).await;
        assert_eq!(Instant::now(), start);
        let request = state.lock().await.acquire_tokens(0);
        assert!(request.replenisher.is_none());
        assert_eq!(request.tokens.available_permits(), 2);
        assert_eq!(request.acquired_tokens.lock().await.len(), 8);
    });
}

#[test]
fn release_of_zero_keeps_everything() {
    let bucket = Arc::new(Semaphore::new(2));
    let mut acquired = permits(&bucket, 2);
    assert_eq!(TokenBucketState::release_tokens(0, &mut acquired), 0);
    assert_eq!(acquired.len(), 2);
    assert_eq!(bucket.available_permits(), 0);
}

#[test]
fn acquire_requests_the_tokens_and_one_replenisher() {
    let rt = runtime();
    let _guard = rt.enter();
    let mut state = TokenBucketState::new(10, 3, Duration::from_secs(3));

    let request = state.acquire_tokens(4);
    assert_eq!(request.n_tokens, 4);
    assert_eq!(request.tokens.available_permits(), 10);
    let replenisher = request.replenisher.expect("first acquisition starts the replenisher");
    assert_eq!(replenisher.replace_amount, 3);
    assert_eq!(replenisher.replace_duration, Duration::from_secs(3));
    assert!(Arc::ptr_eq(&replenisher.acquired_tokens, &request.acquired_tokens));
    assert!(!replenisher.releases_on_tick(0));
    assert!(replenisher.releases_on_tick(1));
    assert!(replenisher.releases_on_tick(7));

    state.set_replenish_task(tokio::spawn(async {}));
    assert!(state.create_task_if_none().is_none());
    let again = state.acquire_tokens(1);
    assert!(again.replenisher.is_none());
    assert!(Arc::ptr_eq(&again.tokens, &request.tokens));
}

#[test]
fn limiter_wait_names_shared_state_and_cost() {
    let state = Arc::new(Mutex::new(TokenBucketState::new(10, 1, Duration::from_secs(1))));
    let mut limiter = TokenBucketRateLimiter::new(state.clone());
    let wait = limiter.wait_with_cost(4);
    assert_eq!(wait.cost, 4);
    assert!(Arc::ptr_eq(&wait.state, &state));
    let copy = limiter.clone();
    let mut copy = copy;
    assert!(Arc::ptr_eq(&copy.wait_with_cost(1).state, &state));
}

#[test]
fn dropping_the_state_stops_the_replenisher() {
    runtime().block_on(async {
        tokio::time::pause();
        let state = Arc::new(Mutex::new(TokenBucketState::new(2, 1, Duration::from_secs(1))));
        let mut limiter = TokenBucketRateLimiter::new(state.clone());
        carry_out(limiter.wait_with_cost(1)).await;
        let acquired = state.lock().await.acquire_tokens(0).acquired_tokens;
        assert_eq!(acquired.lock().await.len(), 1);
        drop(limiter);
        drop(state);
        // the replenisher held the list; once aborted, only this handle is left
        sleep(Duration::from_millis(10)).await;
        assert_eq!(Arc::strong_count(&acquired), 1);
    });
}

#[test]
fn test_proceeds_immediately_under_limit() {
    runtime().block_on(async {
        tokio::time::pause();
        let state = TokenBucketState::new(10, 3, Duration::from_secs(3));
        let state_mutex = Arc::new(Mutex::new(state));
        let mut limiter = TokenBucketRateLimiter::new(state_mutex);
        let start = Instant::now();
        for _ in 0..5 {
            carry_out(limiter.wait_with_cost(2)).await;
        }
        let elapsed = Instant::now() - start;
        assert!(elapsed < Duration::from_millis(100));
    });
}

#[test]
fn test_multi_cost_waits_at_limit() {
    runtime().block_on(async {
        tokio::time::pause();
        let state = TokenBucketState::new(10, 2, Duration::from_secs(3));
        let state_mutex = Arc::new(Mutex::new(state));
        let mut limiter = TokenBucketRateLimiter::new(state_mutex);
        let start = Instant::now();
        carry_out(limiter.wait_with_cost(8)).await;
        carry_out(limiter.wait_with_cost(3)).await;
        let elapsed = Instant::now() - start;
        assert!(elapsed > Duration::from_secs(3), "{:?}", elapsed);
        assert!(elapsed < Duration::from_secs(4));
    });
}

#[test]
fn test_bucket_does_not_overflow_over_time() {
    runtime().block_on(async {
        tokio::time::pause();
        let state = TokenBucketState::new(10, 2, Duration::from_secs(3));
        let state_mutex = Arc::new(Mutex::new(state));
        let mut limiter = TokenBucketRateLimiter::new(state_mutex);
        sleep(Duration::from_secs(180)).await;
        let start = Instant::now();
        carry_out(limiter.wait_with_cost(8)).await;
        carry_out(limiter.wait_with_cost(3)).await;
        let elapsed = Instant::now() - start;
        assert!(elapsed > Duration::from_secs(3), "{:?}", elapsed);
        assert!(elapsed < Duration::from_secs(4));
    });
}

#[test]
fn test_bucket_does_not_replace_over() {
    runtime().block_on(async {
        tokio::time::pause();
        let state = TokenBucketState::new(10, 100, Duration::from_secs(3));
        let state_mutex = Arc::new(Mutex::new(state));
        let mut limiter = TokenBucketRateLimiter::new(state_mutex);
        sleep(Duration::from_secs(180)).await;
        let start = Instant::now();
        carry_out(limiter.wait_with_cost(8)).await;
        carry_out(limiter.wait_with_cost(3)).await;
        let elapsed = Instant::now() - start;
        assert!(elapsed > Duration::from_secs(3), "{:?}", elapsed);
        assert!(elapsed < Duration::from_secs(4));
    });
}

#[test]
fn token_bucket_test_many_waiters() {
    runtime().block_on(async {
        tokio::time::pause();
        let start = Instant::now();
        let mut tasks = vec![];
        let state = TokenBucketState::new(10, 2, Duration::from_secs(3));
        let state_mutex = Arc::new(Mutex::new(state));
        for _ in 0..10 {
            let task_mutex = state_mutex.clone();
            let task = tokio::spawn(async move {
                let mut limiter = TokenBucketRateLimiter::new(task_mutex);
                carry_out(limiter.wait_with_cost(5)).await;
            });
            tasks.push(task);
        }
        for task in tasks.into_iter() {
            let _ = task.await;
        }
        let duration = Instant::now() - start;
        // 10 tasks * 5 cost = 50 tokens; 40 after the first 10, at 2 per 3s = 60s
        assert!(duration > Duration::from_secs(60), "{:?}", duration);
        assert!(duration < Duration::from_secs(61));
    });
}
