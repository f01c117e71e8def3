# meow

The decision core of a rule-based proxy, written and proved in Verus, with the
asynchronous program around it.

- `src/request_line.rs` tells an HTTP proxy request by its first bytes.
- `src/mixed.rs`, `src/redir.rs` hold the two listeners and the choice of the
  protocol; `src/accept.rs` is their accept loop with its cap on connections.
- `src/session.rs` takes a redirected connection from its original destination
  to the end of its relay.
- `src/health.rs`, `src/timestamp.rs` keep the liveness and the rolling delay
  history of an outbound proxy; `src/adapter.rs` is the interface of proxies.
- `src/home_dir.rs` chooses the configuration directory.
- `src/addr.rs`, `src/metadata.rs` are the plain values that the rest works on.
- `app/` opens sockets, spawns tasks, reads variables and serialises records. It
  performs the actions that the accept loop and the sessions ask for.

The accept loop and the sessions are state machines: a step takes the event that
came of the last action and returns the next action. What holds of every run of
them is stated and proved beside them.
