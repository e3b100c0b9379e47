# hyper_proto

The HTTP/1 message-head layer of an HTTP client and server library, written
in Verus.

- `src/text.rs`: bytes of HTTP text (tokens, header-value bytes, trimming,
  case-insensitive comparison, decimal numbers).
- `src/headers.rs`: `http::HeaderMap`, seen as the groups of values it holds
  by name, with the operations that the protocol code needs.
- `src/message.rs`: methods, status codes, versions and request targets.
- `src/raw.rs`: the read buffer (`bytes::BytesMut`) and the head parser
  (`httparse`).
- `src/error.rs`: the error type.
- `src/proto/`: heads and transactions (`mod.rs`), HTTP/1 reading, body
  framing and writing (`h1.rs`), the HTTP/2 body adapters (`http2.rs`), and
  the laws that relate reading and writing (`laws.rs`).
- `app/`: what needs std's formatting and error traits, and the HTTP/2
  body pipe that runs on `futures` and `h2`.

The `Date` header of a response is written with the `httpdate` crate: it
formats the current second as an IMF-fixdate, which the HTTP/1 writer needs
and which neither `http` nor the other dependencies provide.

The tests under `tests/` exercise the compiled library.
