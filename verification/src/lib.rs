//! A minimal cooperative task runtime, verified.
//!
//! The library models the three pieces of a toy async system — an executor
//! draining a FIFO ready queue, wakers that re-enqueue their task, and a
//! reactor table mapping tokens to registered file descriptors — together
//! with the sample futures that exercise them.  All scheduling decisions are
//! made here, on plain data, with contracts; the surrounding process (real
//! threads, `epoll`, the event file descriptor) performs the actions these
//! decisions request.

pub mod executor;
pub mod futures;
pub mod outcome;
pub mod parse;
pub mod reactor;
pub mod task;

pub use outcome::Line;
pub use outcome::Poll;
pub use outcome::PollContext;
