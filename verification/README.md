# cortex-core

The core of Cortex OS, an autonomous AI runtime, written in Verus: the
runtime's rules and decisions are verified functions with contracts, and the
I/O, async plumbing and trait objects around them live in `app/`.

- `src/` — the verified library: the permission policy, sandbox output
  limits, the tools' decisions (bash, file read/write, file tree, web, MCP,
  scripts, delegation), the agent's Think-Act-Observe loop and the workflow
  runner as state machines, agent discovery, swarm bookkeeping, the secrets
  vault, the health circuit breaker, the gateway's rate limiter and reply
  routing, the tool index, the status reply, the prompt's commands and
  reports, and the dashboard's state.
  Calls into `serde_json`, `aes-gcm`, `pbkdf2`, `hex`, `rand`, `uuid` and
  `html2text` go through small trusted wrappers whose contracts are stated
  beside them.
- `app/` — the `cortex` program around the library: NATS messaging, processes,
  files, HTTP, the terminal dashboard, the Discord adapter and the CLI.
- `tests/` — tests of the library on concrete values.
