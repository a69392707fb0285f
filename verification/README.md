# kitlogger

A structured logging toolkit whose behaviour is stated as contracts and
proved with Verus.

## What it does

- **Domain model** (`attribute`, `record`, `context`, `severity`, `ids`,
  `validation`, `emit_error`, `security`): attribute names and values with
  their validation rules, immutable log records, log contexts with unique
  attribute names, and the security types (credentials, identities, claims).
- **Formatters** (`formatter`): JSON, human-readable, compact text and
  logfmt renderings of a record and its context, each specified exactly as a
  function from the record to the line (or, for JSON, to the render error),
  with RFC 3339 timestamps from a verified calendar computation.
- **Context propagation** (`propagation`): W3C `traceparent` and `baggage`
  headers, with proofs that extracting what was injected gives the context
  back, and correlation identifiers built on UUIDs.
- **Console export** (`console`): a lifecycle state machine, flush
  strategies and a router that hands each line to the writer of the stream
  its severity maps to. Each writer keeps a record of the lines handed to
  it and how each write ended, and the router's and exporter's contracts
  are stated over those records.
- **Emission pipeline** (`pipeline`): the enabled gate, level filter,
  sampling, redaction, buffering, formatting and export, with the whole
  sequence stated in `KITLogger::log_record`'s contract; file rotation
  planning.
- **Telemetry validation** (`telemetry`): validators of spans, log records,
  metrics and resources.

## Layout

- `src/` — the verified library.
- `tests/` — tests run against the compiled library.
- `app/` — the runtime around it: standard-stream and file writers, clocks,
  float conversion and serde forms.
