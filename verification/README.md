# todorpc

Remote procedure calls over TCP, QUIC and WebSocket connections: calls with one
answer, subscriptions with many, and uploads, which send a stream of items along.

`src/` is the library. It holds what clients and servers decide and compute, with
contracts that Verus proves:

- `rpc`: errors, messages, and the traits by which a request type says what it is
- `wire`, `wire_laws`: byte layouts, and that what is written is read back
- `registry`: who waits for which message number on a connection
- `exchange`, `exchange_laws`, `ops`: the steps of an exchange on a connection that carries many
- `client_tcp`, `web`, with `client_tcp_laws`, `web_laws`: the connection tasks of
  the clients, and what holds over any run of operations
- `client_quic`, `client_core`: the clients with one stream for each exchange, and
  over connections that call back
- `server_core`, `server_quic`, `server_websocket`, `server_laws`: handlers, uploads, tokens, and
  byte streams over messages

`app/` holds the tasks around the library: sockets, queues, timers and codecs.
