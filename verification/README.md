# websocket

The client side of a WebSocket transport for a remote desktop, verified with
Verus.

- `src/url.rs`: the WebSocket URL under which an endpoint is reached.
- `src/endpoint.rs`, `src/text.rs`: endpoints and the text they are made of.
- `src/connect.rs`: which TLS settings are tried, in which order, and when to
  give up.
- `src/stream.rs`: an open connection, what goes over the wire for a message and
  what is delivered of what comes in.
- `src/encrypt.rs`: authenticated encryption of the messages of a connection,
  over `sodiumoxide`.
- `src/buffers.rs`: the byte buffers of the `bytes` crate.
- `app/`: the same connections over tokio, with sockets, TLS and timers.

Every function states what it returns for every input that its `requires` admits.
`check_ws` asks for ports that leave room in an `i32`, and what seals and opens
messages asks for a counter that has not run out and for messages that fit in
memory when sealed; the functions whose names begin with `can_` tell beforehand. Of
the request that `client_request` makes, the URI is stated and the random key is
not.

Laws that span functions are proof functions whose names begin with `law_`. What
is believed of other crates stands in the contracts of the functions marked
`external_body`, and nowhere else.
