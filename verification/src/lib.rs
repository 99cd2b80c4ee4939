//! Rate limiters for asynchronous code, with the bookkeeping of each scheme
//! stated and proved.
//!
//! The waiting itself (awaiting a semaphore, sleeping, spawning tasks, and the
//! loops around those awaits) is performed by an executor. What the limiters
//! here hand it are exact descriptions of the work: which semaphore, how many
//! permits and in which pieces, how long they are held, which replenishing
//! task to start and on which of its ticks it gives tokens back. The
//! laws of both schemes are proved over the permits a limiter's semaphore was
//! created with, under the stated assumption that the semaphore never lends
//! out more than that.
pub mod limiters;
pub mod sliding_window;
pub mod token_bucket;
pub mod tokio_specs;
