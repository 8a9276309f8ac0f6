# hocuspocus-rs-ws

A WebSocket server that speaks the Hocuspocus / Yjs collaboration protocol,
with its protocol logic written in Verus and proved against its contracts.

Layout:

- `src/` — the verified library
  - `lib0.rs`: the lib0 byte encoding used on the wire, read and written
    through `yrs`
  - `sync.rs`: protocol messages (sync steps, awareness, authentication,
    sync status, custom tags), their binary form, and decoders proved to
    read back what the encoders write
  - `payload.rs`: checks on awareness updates and state vectors, whose
    client ids Yjs keeps within 53 bits
  - `doc_connection.rs`: one client's session on one document: frames,
    the decision taken on each message, the authentication outcome,
    broadcasts
  - `client_connection.rs`: a websocket connection: frame splitting,
    routing of each frame to the session opened under its routing key
    (`documentName\0sessionId` or a plain name), its context
  - `hocuspocus.rs`: decisions of the server's background work (idle
    document collection, throttled persistence, websocket events)
  - `store/`: the document store interface and an in-memory store
  - `authenticator/`: the authenticator interface and a permissive one
  - `types.rs`: message kinds and event data
- `app/` — the server around the library: the axum websocket endpoint,
  tokio workers, `yrs` documents and awareness, serde copies of the types
- `tests/` — tests of the library, including the Hocuspocus provider
  protocol exchanges
