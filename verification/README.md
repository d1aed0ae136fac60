# connection-tracking

Connection tracking for graceful shutdown and hot restart, verified with Verus.

- `connection_counter`: atomic counters of the active connections by type, shared by
  all clones, and a guard that counts one connection for as long as it lives.
- `websocket`: tells from the headers of a request and its response whether a
  connection is a WebSocket, a stream of Server-Sent Events, a gRPC stream or a regular
  HTTP connection.
- `counts` and `header_text`: what the counts mean, and how the text of a header value
  is read.
- `count_laws` and `call_laws`: what steps in any order make of the counts, and what
  calls make of a counter whose operations are all known, whoever performed them.
- `websocket_laws`: what holds of every detected type.
- `cells` and `headers`: the calls into `std::sync::atomic`, `http` and `pingora_http`,
  with what is taken for granted of each.

`app/` shows an HTTP application that tracks its connections.
