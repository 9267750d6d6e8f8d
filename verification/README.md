# atomic_core

The decision logic of a personal knowledge base: its database registry, the
knowledge-signal providers and their actions, the health checks and manual
fixes, the report agent's tools and citations, and the briefing schedule.
Every function in `src/` is verified with Verus against a contract over
mathematical models (`Seq`, `Map`, `int`).

Layout:

- `src/text.rs` – string and character utilities with specifications.
- `src/models.rs` – atoms, tags and reports as the knowledge base holds them.
- `src/error.rs`, `src/clock.rs` – the library's error type; wall-clock time and ids.
- `src/manager.rs` – the registry of databases and the database manager.
- `src/tag_tree.rs` – the tag hierarchy: paths, ancestry, relationships, names.
- `src/signals.rs`, `src/duplicates.rs`, `src/signal_actions.rs` – signal
  keys, visibility under feedback, evidence, duplicate detection, and the
  planning and undoing of signal actions.
- `src/health_data.rs`, `src/health_routes.rs` – the raw data of a health
  report and the planning of manual fixes and batch verification.
- `src/reports.rs`, `src/agent_tools.rs` – the report agent: context filters,
  the citation ledger, tool results and search selection.
- `src/schedule.rs`, `src/setup.rs` – briefing schedules and the desktop
  sidecar's setup decisions.
- `app/` – the program around the library: I/O, serialization, and the
  floating-point scoring of signals.

Each law of the library is a public proof function whose name starts with
`law_`.
