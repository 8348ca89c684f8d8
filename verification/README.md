# nova

The decision-making core of the Nova microservice framework, written in Verus
and proved against its contracts.

* `src/` — the verified library: error classification, JSON configuration
  layering and secret resolution, reading and writing JSON text (through
  `serde_json`), the in-process and store-backed circuit
  breakers, retry and rate-limit rules, CQRS and event stores, the saga state
  machine, service registries and the etcd/Consul key, address and status
  rules, response shaping and pagination, validation, request ids, the
  OpenAPI document, SQL statements and schema-sync plans, and the query cache.
  Laws that relate several operations are public proof functions named
  `law_*`.
* `tests/` — executable tests of the library.
* `app/` — the runtime around it: Axum serving and middleware, tracing,
  environment and file configuration sources, Redis, Consul and SeaORM I/O,
  and the async drivers of the saga coordinator and the store-backed
  resilience primitives.
