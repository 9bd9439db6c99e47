# fiducia-telemetry

Shared telemetry set-up for fiducia.cloud services, with its configuration
rules verified in Verus.

- `src/` — the verified library:
  - `text` — Unicode whitespace, trimming, ASCII case folding, splitting and
    substring search over characters, with the lemmas about trimming;
  - `env` — `EnvVars`, a snapshot of the process environment;
  - `log_format` — `LogFormat`, the format aliases and the
    `FIDUCIA_LOG_FORMAT` / `OTEL_LOG_FORMAT` / `LOG_FORMAT` precedence;
  - `attributes` — the sensitive-key filter, the `OTEL_RESOURCE_ATTRIBUTES`
    parser and the assembly of resource attributes;
  - `setup` — start-up decisions (`plan_init`, `init_outcome`), the
    OpenTelemetry `Resource`, `TelemetryGuard` and `shutdown`;
  - `otel` — the OpenTelemetry types and calls the library relies on, with the
    contracts taken on trust;
  - `redaction` — proofs that no exported resource key names a credential or
    personal data.
- `app/` — `init`: reads the environment, builds the OTLP exporters, installs
  the `tracing` subscriber, logs the start-up event and flushes on drop.
- `tests/` — behaviour tests of the library.
