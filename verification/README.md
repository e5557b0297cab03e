# kinetix_plugins

Model discovery for three Kinetix provider plugins — Google AI Studio, B.AI and OpenCode
Free — as a library verified with Verus.

- `src/json.rs`: the JSON documents the discovery logic reads, with a mathematical model
  (`JsonV`) and the accessors `serde_json::Value` offers (`get`, `as_str`, `as_u64`, ...).
- `src/text.rs`: string operations with their specifications (trimming, prefixes, the order
  of `str`, decimal and percent encoding, URL joining).
- `src/model.rs`: errors, normalized model capabilities and discovered models.
- `src/order.rs`: the stable sort and deduplication by model id, and their laws.
- `src/response.rs`: what a catalog response comes to (truncation, UTF-8, HTTP status).
- `src/catalog.rs`: display names and token limits, from the listed item or the catalog.
- `src/ai_studio.rs`, `src/b_ai.rs`, `src/opencode_free.rs`: each provider's discovery,
  including AI Studio's page-by-page run as a state machine.
- `app/lib.rs`: the host glue — HTTP through the host, JSON text to and from `Json`, the
  bundled catalogs, and capability serialization.
