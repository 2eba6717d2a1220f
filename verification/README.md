# RapidGate

A unified LLM API gateway whose core logic is verified with Verus.

## Layout

- `src/` — the verified library, `rapidgate::gateway_core`:
  - `util` — path normalisation, SHA-256 based bucketing and fingerprints,
    consistent hashing with virtual nodes, text and id helpers;
  - `auth` — constant-time API-key checks, JWT verification (key parsing,
    validation settings, the verdict), the OAuth2 client's decisions
    (endpoint checks, CSRF state check, token cache keys, cached token or
    refresh or new fetch);
  - `breaker` — the circuit-breaker state machine;
  - `ratelimit` — the sliding-window limiter;
  - `canary` — weight, header, cookie and sticky-session routing;
  - `observability` — trace ids and W3C `traceparent` parsing and printing;
  - `provider`, `plugins` — the provider and plugin registries, plugin
    loaders and built-in plugins;
  - `proxy` — response-body batching, hop-by-hop header filtering and the
    WebSocket relay's decisions;
  - `audit`, `config`, `error` — audit records, token counting, the
    configuration model and the error type.
- `app/` — the server around the library: configuration loading, the
  asynchronous and shared wrappers (locks, clocks, caches), HTTP and
  WebSocket I/O, OAuth2 exchanges, OpenTelemetry set-up
  and the token-bucket limiter (which computes with floating point).
- `tests/` — tests of the library on concrete values.

Each public function of the library states its result in its `ensures`
clause; properties that relate several calls are public proof functions
(`lemma_*`).
