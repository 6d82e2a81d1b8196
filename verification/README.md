# metrics_helper_macros

The logic of two attribute macros that instrument functions with
Prometheus-style metrics, as a Verus-verified library.

- `#[instrument]` counts calls (`{fn}_total`), times them
  (`{fn}_duration_seconds`) and, for functions returning `Result`, counts
  errors (`{fn}_errors_total`); any name can be overridden. Labels may be
  static (`key = "value"`), parameters (`method`), field accesses
  (`request.method`) or explicitly keyed expressions (`key = expr`).
- `#[instrument_metrics]` emits only the metrics that are named, with static
  or parameter labels.

Under both, the value of each dynamic label is captured once, before the
body runs (under `#[instrument_metrics]` only when some metric is
recorded), and every metric of a call carries the same labels. Every step
but the body and the return of its value is compiled only with the
`metrics` feature, so that without it the function is its body alone. The
body of a synchronous function runs as an immediately called closure and
that of an `async fn` as an awaited async block, so a `return` or `?` in it
still reaches the duration and error metrics.

Layout:

- `src/tokens.rs`: token trees (the form in which the macros receive their
  input) and their printing as text.
- `src/syntax.rs`: the calls into `syn` and `darling` that parse text, with
  their results reduced to plain shapes; the division of an attribute into
  its items; the signature of the annotated function.
- `src/model.rs`, `src/plan.rs`: labels, the steps of an instrumented body,
  and their assembly.
- `src/instrument.rs`, `src/instrument_metrics.rs`: the label grammars and
  the expansions, each specified by a spec function.
- `src/laws.rs`: properties of the expansions (the body runs once and its
  value is returned, every metric carries the labels, each dynamic label is
  captured once and before its use, which metrics are present, that only
  the body remains without the `metrics` feature, how `labels(...)` lists
  are read and that other items do not matter).
- `app/lib.rs`: the token-stream entry points, which hand the library the
  token trees of their input and print its steps with `quote`.
- `tests/`: expansions run through a small interpreter that records metrics.
