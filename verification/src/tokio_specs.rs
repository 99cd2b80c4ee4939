//! Declarations of the tokio and std items that the limiters use, with the
//! contracts that the rest of the crate relies on.
use std::sync::Arc;
use tokio::sync::{Mutex, OwnedSemaphorePermit, Semaphore};
use tokio::task::{JoinError, JoinHandle};
use vstd::prelude::*;

verus! {

/// `tokio::sync::Semaphore`, carried through opaquely.
#[verifier::external_type_specification]
#[verifier::external_body]
pub struct ExSemaphore(Semaphore);

/// `tokio::sync::OwnedSemaphorePermit`, carried through opaquely.
#[verifier::external_type_specification]
#[verifier::external_body]
pub struct ExOwnedSemaphorePermit(OwnedSemaphorePermit);

/// `tokio::sync::Mutex`, carried through opaquely.
#[verifier::external_type_specification]
#[verifier::external_body]
#[verifier::reject_recursive_types(T)]
pub struct ExMutex<T: ?Sized>(Mutex<T>);

/// `tokio::task::JoinHandle`, carried through opaquely.
#[verifier::external_type_specification]
#[verifier::external_body]
#[verifier::reject_recursive_types(T)]
pub struct ExJoinHandle<T>(JoinHandle<T>);

/// `tokio::task::JoinError`, declared because `JoinHandle` resolves to it.
#[verifier::external_type_specification]
#[verifier::external_body]
pub struct ExJoinError(JoinError);

/// The largest number of permits a tokio semaphore may hold: the value of
/// `tokio::sync::Semaphore::MAX_PERMITS`, which tokio defines as `usize::MAX >> 3`.
pub const MAX_PERMITS: usize = usize::MAX / 8;

/// The number of permits a semaphore was created with. It is fixed when the
/// semaphore is made; what the semaphore holds later depends on the permits
/// that tasks take and give back.
pub uninterp spec fn created_permits(semaphore: Semaphore) -> nat;

/// The tokens a mutex-guarded token list was created holding.
pub uninterp spec fn created_holding(
    list: Mutex<Vec<OwnedSemaphorePermit>>,
) -> Seq<OwnedSemaphorePermit>;

/// Calls `tokio::sync::Semaphore::new`, which creates a semaphore holding
/// `permits` permits and panics when `permits` exceeds `Semaphore::MAX_PERMITS`;
/// that input is ruled out here. The new semaphore was created with `permits`
/// permits; nothing is stated of its count later, which other tasks change.
#[verifier::external_body]
pub fn new_semaphore(permits: usize) -> (res: Semaphore)
    requires
        permits <= MAX_PERMITS,
    ensures
        created_permits(res) == permits,
{
    Semaphore::new(permits)
}

/// Calls `tokio::sync::Mutex::new`, which makes an unlocked mutex around
/// `tokens`: the mutex was created holding them. Nothing is stated of what it
/// holds later: other tasks may lock it and change its contents.
#[verifier::external_body]
pub fn new_token_list(tokens: Vec<OwnedSemaphorePermit>) -> (res: Mutex<Vec<OwnedSemaphorePermit>>)
    ensures
        created_holding(res) == tokens@,
{
    Mutex::new(tokens)
}

/// Calls `tokio::task::JoinHandle::abort`, which asks the runtime to cancel
/// the task; it neither blocks nor panics.
#[verifier::external_body]
pub fn abort_task(task: &JoinHandle<()>)
    opens_invariants none
    no_unwind
{
    task.abort()
}

/// Calls `<Arc<T> as Clone>::clone`, which std documents as making another
/// pointer to the same allocation: the clone denotes the same value.
#[verifier::external_body]
pub fn share<T: ?Sized>(this: &Arc<T>) -> (res: Arc<T>)
    ensures
        res == *this,
{
    Arc::clone(this)
}

} // verus!
