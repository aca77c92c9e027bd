# llingr-kafka

A Kafka consumer library built around an embedded stream engine. `src/` is the
verified core, written in Verus: what the consumer decides and computes is stated
in contracts and proved. `app/` is the ordinary Rust around it.

| Module | What it holds |
| --- | --- |
| `options` | typed client options: entries, security protocol, conflicts, redaction |
| `config` | broker and engine settings, and the configuration document |
| `json` | JSON strings and objects, and that what is written reads back |
| `trampolines`, `ffi` | decoding the engine's callbacks, and the replies to them |
| `metrics` | the Prometheus series, what packets record, scrape routing |
| `exposition` | what runs of packets leave in the series |
| `engine` | the builder, the steps by which an engine is brought up, error texts |
| `logging` | engine log lines and their target |
| `snapshot` | the typed snapshot document |
| `producer` | partitions, sample orders and broker list of the sample producer |
| `text`, `pairs` | texts and key/value pairs with their models |
| `foreign` | everything from outside that the proofs rely on, with its contract |

`app/` holds the C callbacks, the published handler set, the Prometheus registry,
the scrape endpoint, the snapshot parser and the sample producer's client.
