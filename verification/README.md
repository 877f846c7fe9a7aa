# hivecore

The verified core of an agent-harness substrate, written in Verus. The
library holds the decisions of the runtime and proves them against
contracts; the asynchronous runtime around it performs the I/O those
decisions call for.

## Layout

- `src/` — the verified library.
  - `text`, `json`, `names`, `ids`, `message`, `events`: text and UTF-8
    models, JSON framing through `serde_json`, registries where the last
    registration wins, and the message and event vocabulary.
  - `tools/`: workspace path containment (`safety`, `path`) and the
    builtin tools' logic — unique-occurrence edits, line-numbered reads,
    writes, bash output capping, and the bounded grep walk.
  - `compaction/`: token estimates, thresholds, the cut between summarised
    head and kept tail, compaction markers and the outgoing-context
    transform.
  - `agent/`: stream assembly, hook folding, tool dispatch order and batch
    termination, the iteration cap, registries and sub-agent spawning.
  - `browser/`: tenant-isolated provider sessions, versioned element refs,
    snapshots, assertions, wait plans and the settle state machine.
  - `acp/`, `coder/`: permission mapping and event routing for the agent
    client protocol, and the coder's budget, clock, progress and prompter.
- `tests/` — tests of the library on concrete values.
- `app/` — the runtime: file and process I/O for the builtin tools, the
  Chromium provider and browser tools, JSON wire forms, and the
  asynchronous agent loop.
