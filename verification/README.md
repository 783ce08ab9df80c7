# rzmq

The state machines of a ZeroMQ socket library, with their contracts proved by Verus.

- `src/` is the library. It never performs I/O and never waits: where a socket would have
  to send, to connect or to wait, a function returns the step to be taken, and another
  function takes its outcome.
  - `message`, `error`, `time`, `text`, `uri_map`, `id_map`: the plain values that the rest
    is made of.
  - `socket/patterns`: the queues, maps and permits that the socket patterns share. The
    modules `channel`, `pipe_table` and `pipe_coordinator` state what is believed of the
    channels, maps and semaphores of the `fibre`, `dashmap` and `tokio` crates.
  - `socket/*_socket`: the patterns PUB, PUSH, PULL, REP, DEALER, ROUTER, RADIO and DISH.
  - `socket/socket_core`: endpoints, events, reconnecting and the shutdown of a socket.
  - `transport`: endpoint grammar, listeners, connecters and UDP sockets.
  - `uring`: the start and the end of the io_uring backend, and the routing of its events.
- `app/` is the asynchronous side: tasks, sockets of the operating system, and the handle
  that a program uses. The program brings the wire protocol, as an implementation of
  `WireProtocol`, and the patterns SUB and REQ, as implementations of `Pattern`.
- `tests/` runs the library on concrete values.
