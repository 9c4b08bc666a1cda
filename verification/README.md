# oxidizedgraph

Graph-based agent orchestration in Rust, with its decision logic verified
by Verus: graph compilation and routing, the run loop's steps, role-scoped
governance, tool execution policy, quality gates and change risk,
human-in-the-loop approval, decision and document memory, planning and
scheduling, subgraph bookkeeping and worker spawning.

## Layout

- `src/` — the verified library. Every function there carries a contract
  over mathematical models (`Seq`, `Map`, `Set`, spec functions, views);
  the public proof functions named `lemma_*` state the properties that hold
  across calls (routing, store round trips, policy precedence, plan
  propagation, the approval audit log and others).
- `app/` — the asynchronous runtime around it: node executors, the graph
  runner loop, file-system and process I/O, environment reading, serialized
  forms of library values, and the parts computed in floating point.
- `tests/` — tests of the library on concrete values.

Context values in agent state are JSON text in the library; `app/`
converts them to and from typed values. Timestamps are milliseconds since
the Unix epoch.

## Known gap

The governance framework names one more agent-specific guidance file than
this library handles (the first entry of its target and discovery lists).
Here it is left out of `known_targets` and `agent_locations`: that file is
not synced as a link, not checked for compliance, and its agent is not
discovered from it, only from a block of the master manifest.
