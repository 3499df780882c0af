# zetax

An RPC-over-QUIC framework whose protocol logic is verified with Verus.

- `src/` is the verified library:
  - `protocol`: the request format (`name\npayload`) and the reply frames
    (`OK\n`, `ERR\n`, `CHUNK\n`, `END\n`), with the proof that the server
    reads back the name and payload a client framed;
  - `handlers`: the handler traits, the routing table by name and the
    process-wide registry of handlers;
  - `server`: server settings and their builder, and the decision a worker
    makes for a complete request;
  - `client`: the client builder, stream-id allocation and the state machines
    that follow a unary or a streaming call;
  - `net`: socket addresses as plain values and the rules of socket setup and
    batch sending;
  - `io`: what a job on the worker pool reports back;
  - `errors`: RPC errors and their texts.
- `app/` holds what performs I/O: UDP sockets, QUIC endpoints (tquic), async
  handlers, the global registry behind a mutex, worker threads and the
  thread-pool helpers.
- `tests/` exercises the library on concrete values.
