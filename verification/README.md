# calloop

A callback-based event loop for Unix. Event sources (file descriptors, pings,
timers, futures executors, transient wrappers around other sources) are
inserted in an `EventLoop`; the loop waits for readiness and runs the
callbacks of the sources that became ready, then its idle callbacks.

## Layout

- `src/` is the verified library: the data structures and decisions of the
  loop and of its sources, with their contracts, proved by Verus. The
  decisions of the futures executor and of `block_on`, which are tied to
  async tasks and atomic flags, stay in `app/`.
  - `sources/mod.rs`: `PostAction` and how actions of nested sources combine;
    the queue of idle callbacks.
  - `sources/timer.rs`: the pending timeouts of a timer, the order in which
    they expire, and how the system timer is armed for the earliest one.
  - `sources/transient.rs`: the state machine of a `TransientSource`.
  - `sources/ping.rs`: how a ping source reads its pipe or eventfd counter.
  - `sources/futures.rs`: the state of an executor's tasks.
  - `sys/mod.rs`: interests, modes, readiness, tokens, the registry that maps
    registered descriptors to their tokens, and the wait timeouts.
  - `sys/kqueue.rs`: the filter changes asked of kqueue and how its receipts
    are read.
  - `list.rs`: a list of sources indexed by id, reusing free slots.
  - `loop_logic.rs`: registration keys and what the loop does with a source
    after processing its events.
- `app/` is ordinary Rust around the library: the event loop itself, the
  pollers (epoll, kqueue), the sources' system calls, the futures executor and
  the async I/O adapter. It follows the library's decisions.
- `tests/` runs the library on concrete values.
