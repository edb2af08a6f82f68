# opsk

The verified core of the Ops platform backend: access rules, request checks,
workflow state machines, parsers and the texts and configuration files the
platform produces, written in Verus with their contracts proved.

Layout:

- `src/` — the library. Each module holds the data it works on, the spec
  functions that say what its operations compute, and the operations with
  their `requires`/`ensures`. Public `law_*` proof functions state properties
  that relate several operations (sorting, the notification inbox, the user
  directory, approvals, the model-card catalog, the MCP tool catalog, alert
  severities, a whole investigation run, a whole rollout watch).
  Calls into outside crates (serde_json, regex, urlencoding, uuid, chrono,
  bcrypt, rand, jsonwebtoken) go through small trusted wrappers whose doc comments say what
  their contracts claim.
- `app/` — the plumbing around it: the approval API over HTTP, running the
  agent CLI as a process,
  driving an investigation with the library's step tracker, watching Argo
  rollouts and listing a cluster's resources for the topology graph (through
  the Kubernetes API), writing workspace files, HTTP middleware and JSON
  shapes.
- `tests/` — tests of the library on concrete values.

Texts that name the agent CLI (its title in error messages, its hidden
directory, its instructions file, the agent kind) are derived from the file
name of the configured CLI binary; see `ClaudeAgent` in `src/agent.rs`.
