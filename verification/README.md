# nuclei

Nuclei is a proactor-based IO system: IO operations are submitted to an
event backend (epoll, io_uring or kqueue) and complete asynchronously,
independently of the executor that drives them.

The crate in `src/` is the verified core: every function there carries a
Verus contract over an abstract model, and the properties that span several
operations are proved as `law_*` proof functions.

- `config`: io_uring configuration presets.
- `submission_handler`, `completion_handler`: the slot of a handle in which
  the in-flight read or write waits; a new operation is installed only into
  an empty slot and a completed one frees it.
- `registry`: the interest registry of the readiness backends, generic over
  the event encoding: which control operation a registration needs, which
  waiters a readiness report completes, and the one-shot channels that
  carry the completions.
- `epoll`: the registry with `i32` events and the handling of the reports
  of one `epoll_wait`.
- `kqueue`: the registry with `usize` events, and the receipt and event
  checks of the kqueue backend.
- `iouring`: submission ids, completion dispatch and the reaping pass of
  the io_uring backend.
- `oneshot`, `ring_channel`: the completion channels of the readiness and
  io_uring backends, each receiving half kept with its linked sender.
- `sockaddr`: the family check and the length under which a Unix socket
  address is kept.

The registries keep a ghost log of every completion they hand to a
sender, recorded from what each send call reports, so that the contracts
say which sender got which value; the receiver handed out at registration
carries the sender it is linked to.
- `processor`: the retry protocol of non-blocking socket operations and the
  connection loop over resolved addresses.
- `store_file`: position, read-ahead buffer and operation state of
  ring-driven files.

`app/` is the runtime around it on Linux with epoll: the epoll event loop,
the `Handle` type with its async read and write implementations, the socket
operations and the executor glue (`drive`, and the re-exported
`async-global-executor`). The io_uring and kqueue decisions in `src/` are
exercised by the tests; `app/` does not run those backends.
