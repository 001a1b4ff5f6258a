# agendao-server

The decision logic of the agendao HTTP server, written in Verus with its
behaviour stated in contracts and proved.

- `src/` is the verified library: request validation and the errors each
  refusal answers, command-argument parsing and shell quoting, provider
  listings and catalog merges, configuration merges, session recovery and
  goal continuation, steering and queued input, permission prompts, live
  snapshot coalescing and event filtering, webhook signatures and replay
  windows, live web-input batching, blueprint locks, and the scheduler's
  context and memory hydration. Public proof functions (`lemma_*`) state the
  laws that tie several operations together.
- Digests come from the `hmac`, `sha2` and `hex` crates and a progress
  fingerprint from `serde_json`, each behind a small trusted wrapper whose
  contract names what the crate computes.
- `app/` holds what stays outside the proofs: the wall clock, the OpenAPI
  document printed to standard output, and the JSON shapes of requests and
  answers, converted to and from the library's types.
- `tests/` runs the library on concrete values.
