# gurkle

A GraphQL client with subscriptions, and a code generator for typed requests. The
part that decides is a library that Verus verifies; what reads and sends is a
program around it.

- `src/client.rs`: responses, errors, request bodies, headers.
- `src/ws.rs`: subscriptions, their messages and what happens when a connection is
  lost; `src/ws/raw.rs` has the messages of the `graphql-ws` protocol.
- `src/codegen.rs` and below: schemas, query documents, and the module that is
  generated for an operation.
- `src/text.rs`, `src/json.rs`: numerals, joining and trimming; JSON texts.
- `app/`: HTTP, WebSockets, files, serde.

A subscription is started under its number in hexadecimal and, on a later
connection, under its number in decimal. Messages are routed by reading the name
as hexadecimal, so after a reconnection only the messages for numbers below ten
reach their own subscription.
