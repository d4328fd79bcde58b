# Canlı Atölye backend

Production and assembly tracking: projects are split into nested sections,
work items live in the sections, and each work item runs through a group of
process steps (PENDING → READY → IN_PROGRESS → COMPLETED, with PAUSED and
BLOCKED) whose dependencies decide when a step becomes ready.

- `src/` — the domain library, verified with Verus: the status engine and the
  dependency resolver, permissions, duration breakdowns, section trees, bulk
  generation and subtree clones, the dashboard, matrix and report figures,
  request checks, file-name and slug rules, sessions and password hashing
  (the hashing itself is argon2's, the digests sha2's).
- `app/` — the HTTP service around it (axum, SQLite through sqlx, server-sent
  events, local file storage). It stores and loads rows and hands every
  decision to the library.
- `tests/` — tests of the library on concrete values.
