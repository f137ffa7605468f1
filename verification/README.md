# dxfeed

A verified library that aggregates DX cluster and Reverse Beacon Network
feeds into one deduplicated, filtered stream of spot events.

- `src/` is the library. Verus proves its functions against the contracts above
  them, except for the few that wrap a call into `globset`, `regex` or std. Their
  contracts are taken on trust, and stand where the calls are made
  (`filter/pattern.rs`, `resolver/cty.rs`, `text.rs`, `metrics.rs`).
- `tests/` runs the library on concrete values.
- `app/` is the command-line program: sockets, clocks, files, JSON and the
  terminal. The one rule that it holds itself is the reconnect backoff, which
  is floating-point arithmetic.

| module       | what it holds                                                    |
|--------------|------------------------------------------------------------------|
| `domain`     | bands, modes, continents and the small enumerations              |
| `freq`       | band edges, band plans, frequency buckets                        |
| `callsign`   | callsign normalization                                           |
| `parser`     | spot lines, skimmer comments, announcements                      |
| `model`      | spots, observations, events                                      |
| `filter`     | filter configuration, its compilation and its evaluation         |
| `skimmer`    | edit distance and the skimmer quality engine                     |
| `resolver`   | entities by callsign prefix (`cty.dat`), enrichment traits       |
| `aggregator` | the table of spots, the pipeline, and the laws of its events     |
| `source`     | telnet commands, the cluster session, the reconnect supervisor   |
| `feed`       | building a feed and passing messages through it                  |
| `console`    | what a terminal front end shows                                  |
| `metrics`    | counters shared between tasks                                    |
| `text`, `sets`, `time` | plain values that the other modules build on           |
