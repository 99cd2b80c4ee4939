# async-rate-limit

Rate limiters for tokio: a sliding-window limiter and a token bucket.

- `src/` is the verified library. A call on a limiter hands out an exact
  description of the waiting to be done (which semaphore, how many permits,
  how long they are held, which replenishing task to start), and the list of
  acquired tokens is kept there. The constructors state the permits their
  semaphores are created with. The laws are proved over those: if a
  limiter's semaphore never lends out more than it was created with, no
  window admits more than the limit, and a bucket serves at most its tokens
  plus what replenishment gave back, which is only tokens that were taken,
  oldest first, at the replacement rate.
- `app/` awaits those descriptions on tokio (the acquisition loops and the
  replenishing timer, which asks the library on which ticks to give tokens
  back) and provides the asynchronous traits that callers use.
- `tests/` drives the library on a tokio runtime, with its own small
  executor, pausing time where a scenario waits.
