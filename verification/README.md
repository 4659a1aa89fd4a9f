# semantic_probe

A proxy in front of language model providers cannot trust a `200`. A channel may
be degraded although its event stream is well formed, and an error may hide in the
body. This crate holds the rules by which such responses are found, and the
policy for what is done about them. Every rule is stated as a contract and proved
with Verus.

| module              | what it holds                                                      |
|---------------------|--------------------------------------------------------------------|
| `semantic_detector` | the shapes of ids, the Tier A state machine, the Tier B signals     |
| `probe_stream`      | the Tier A probe on a byte stream                                   |
| `semantic_error`    | error envelopes in bodies and in events                             |
| `stream_start`      | validation of bodies and of the start of a stream                   |
| `semantic_guard`    | how often a request is sent, and the semantic circuit breaker       |
| `semantic_audit`    | rows of the audit table                                             |
| `sse`, `json`, `text`, `replay` | event streams, documents, text, and streams read ahead  |
| `laws`              | what holds across functions, over sequences of events and failures  |

`serde_json` parses documents and writes them; the contracts of the few functions
that call it (in `json`) are believed, not proved. So are two contracts on the
standard library: `String::push` (in `text`) and `char::from_u32` (in `sse`).

`app/` holds what touches the network, the clock, locks and the database. Streams
are handed to the library as arrivals (`Arrival`), one by one, and the library says
whether to read on.
