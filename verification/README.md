# ccx

`ccx` is a terminal coding-agent harness: it keeps a session with a model,
parses the tool calls the model writes, checks them against a permission
profile, runs them, and records everything in a JSONL session log that can
be resumed.

The decisions live in a library verified with Verus (`src/`); the program
around it (`app/`) reads the terminal, the disk and the network and does
what the library decides.

## Layout

- `src/text.rs`, `src/map.rs`, `src/json.rs`: text operations, a
  string-keyed ordered map, and JSON read one level at a time and objects
  written through `serde_json`.
- `src/config.rs`: configuration, effort resolution, file locations.
- `src/parser.rs`: reading tool calls out of model replies (XML tags,
  fenced or bare JSON, local-model action objects, malformed writes).
- `src/permissions.rs`, `src/safety.rs`: permission profiles, protected
  paths (Unix and Windows rules), shell command risk.
- `src/tools.rs`, `src/patch.rs`, `src/review.rs`: planning tool calls,
  exact and unified-diff edits, diff review.
- `src/providers.rs`: request bodies and reply reading for OpenAI,
  Anthropic and OpenAI-compatible local servers.
- `src/agent.rs`, `src/subagents.rs`: the agent state, one turn as a state
  machine, slash commands, session replay, compaction, subagents.
- `src/fullscreen.rs`, `src/ui.rs`: the full-screen interface's state and
  line layout, terminal summaries.
- `src/context.rs`, `src/hooks.rs`, `src/preview.rs`, `src/mcp.rs`,
  `src/skills.rs`, `src/tasks.rs`, `src/session.rs`, `src/cli.rs`: project
  instructions, hook payloads, the preview server's HTTP texts, listings.
- `app/`: command line, terminal loops, HTTP, processes and files.
- `tests/`: executable tests of the library.
