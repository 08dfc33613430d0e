# torii_indexing

The decisions behind a contract indexing service, written and proved in Verus:
who may register contracts, what is handed to the indexing engine, how far the
contracts are indexed, and what every request is answered.

- `src/address.rs`: contract addresses, how they are read and shown
- `src/auth.rs`: bearer authentication
- `src/body.rs`: request bodies, read up to a limit
- `src/contract.rs`: contracts and requests to index one
- `src/control.rs`: the engine's answers
- `src/status.rs`: how far contracts are indexed
- `src/readiness.rs`: whether the service is ready
- `src/management.rs`: registering contracts and asking after them
- `src/request.rs`, `src/response.rs`, `src/json.rs`, `src/text.rs`: requests,
  answers, their bodies and their texts

Where a request takes several questions to others (the chain's provider, the
storage, the engine), the library says step by step what to ask next and takes
the answers in. `app/` asks them: it is the HTTP service around the library.
