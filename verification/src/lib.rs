//! The verified core of `trale`, a tiny single-threaded async executor for
//! Linux built on io_uring.
//!
//! The modules hold the executor's bookkeeping and decisions; the system
//! calls, the futures themselves and the thread-local plumbing stand around
//! them.
//!
//! - [result]: the stores in which completion values wait for their futures.
//! - [uring]: the io_uring reactor's record of operations in flight.
//! - [io]: the handles through which futures submit operations and collect
//!   their results.
//! - [reactor]: the reactor as the executor uses it.
//! - [poll]: the bookkeeping of the epoll reactor.
//! - [task]: the executor's run queue and parked tasks.
//! - [event]: what the reads and writes of an eventfd-backed event mean.
//! - [timer]: when a timer is done, and for how long to arm its timerfd.
//! - [attempt]: which of the addresses a name resolves to is used.
//! - [sock_addr]: socket addresses and their C `sockaddr` form.
pub mod attempt;
pub mod event;
pub mod io;
pub mod poll;
pub mod reactor;
pub mod result;
pub mod sock_addr;
pub mod task;
pub mod timer;
pub mod uring;
