# trale

The verified core of `trale`, a tiny single-threaded async executor for Linux
built on io_uring (with an epoll reactor for readiness-based futures).

- `src/` is the library, written in Verus. It holds the executor's
  bookkeeping and decisions: the result stores of in-flight I/O operations
  (`result`), the reactor's record of operations in flight and its handling
  of completions (`uring`, `reactor`), the handles through which futures
  submit operations and collect results (`io`), the epoll subscription
  bookkeeping (`poll`), the run queue and parked tasks of the executor
  (`task`), what the outcomes of eventfd reads and writes, timer polls
  and address attempts mean (`event`, `timer`, `attempt`), and the encoding
  and decoding of C socket addresses (`sock_addr`). Laws that relate
  several operations are public proof functions named `law_*` in the module
  they concern.
- `app/` is the runtime around it: the system calls (io_uring submission and
  completion queues, epoll, eventfd, timerfd, sockets, files), the
  thread-local reactor and executor, and the futures that tasks await.
- `tests/` exercises the library on concrete values.
