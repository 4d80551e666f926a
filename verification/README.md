# starrocks_admin_backend

The analysis and decision logic of a StarRocks administration service, written in
Verus: every function in `src/` carries a contract over mathematical models
(`Seq`, `Map`-like views, exact decimals) and is proved to meet it.

## What is verified

- **Profile diagnostics** (`rules/`, `engine/`): thirty-five node rules and nine
  query rules; the engine collects their diagnostics, orders them by severity,
  drops repeats of a rule on a node, and caps the list. Laws: ordering, no
  repeats, severity floor, completeness under the cap.
- **Reports** (`engine/report.rs`, `suggestion.rs`, `hotspot.rs`,
  `analysis/`): suggestions without repeats, performance scores, conclusions,
  hotspots (most severe first), aggregation by rule, per-node grouping.
- **Root causes** (`root_cause/`): causal edges inside a node and across nodes,
  root-cause selection and ranking, causal chains by bounded depth-first search.
- **Execution topology** (`topology/`): node checking, sink selection, and a
  validation that accepts exactly the graphs whose root and children exist and
  that have no cycle.
- **Values** (`num.rs`, `metrics.rs`): durations, sizes and percentages as exact
  decimals; sizes read with the full floating-point literal syntax, exactly
  (`literal.rs`); formatting with round-half-even; a formatted size reads back as
  itself.
- **Service logic**: configuration defaults, environment overrides and
  validation (`config.rs`); request locale (`locale.rs`); baseline selection and
  the time-to-live cache (`baseline.rs`, `baseline_cache.rs`); console SQL
  handling, DDL facts and table names (`sql.rs`); error codes (`error.rs`);
  LLM session bookkeeping (`llm.rs`); role permissions and user checks
  (`permissions.rs`); request authentication decisions (`auth.rs`); profile
  listings and cluster variables (`profiles.rs`); the records handed to the
  language model (`dto.rs`); table and synchronous materialized-view listings
  (`catalog.rs`).

Calls into `std` string case mapping and trimming and into the `regex` crate are
trusted wrappers (`text.rs`, `sql.rs`); their contracts say what the
documentation promises.

## Layout

- `src/` the verified library.
- `tests/` tests of the library on concrete values.
- `app/` the program around it: configuration files and environment, the
  per-thread locale, the process-wide baseline cache, JSON forms, and the
  floating-point baseline statistics.
