# relay_core

Verified core of a relay proxy. The library decides; the shell under `app/` owns channels, timers, locks
and logs, and hands their outcomes to the library.

| module | what it does |
|--------|--------------|
| `stats` | counters under a telemetry policy, per-user traffic and quota, replay detection |
| `ip_tracker` | open connections of each address of each user, and their deferred release |
| `transport::middle_proxy` | connections, writers and their bindings; routing responses; closing connections |
| `proxy::middle_relay` | queueing towards the middle proxy, reports of desynchronised streams |
| `proxy::relay::io` | counting, limiting and shaping what goes through the client side of a relay |
| `dash`, `lru_cache` | the maps of the `dashmap` crate and the cache of the `lru` crate, with their contracts |
| `table`, `text`, `time` | an association table, numbers as text, instants and durations |

What holds over several calls stands in public proof functions whose names begin with `law_`.
