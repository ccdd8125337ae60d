# self_evolving_agent

A self-evolving LLM agent system: agent definitions with structured prompts,
conversation sessions, a gateway that ties agents to sessions, and a
session/server container (servers with a Pending → Active → Draining →
Removed lifecycle, capability routing, message history, caches).

The library under `src/` is written in Verus; every function there carries a
contract that Verus proves.

- `text`, `strmap` — string helpers and an insertion-ordered string map.
- `prompt` — structured prompts, templates, variable and function
  substitution, prompt contexts.
- `llm`, `agent`, `session`, `config`, `logger` — chat messages and request
  bodies, agent definitions and instances, conversation sessions, settings
  and log bookkeeping.
- `gateway` — agent definitions, sessions and agent instances managed
  together; sending a message is split into `begin_message` (what goes to
  the model) and `finish_message` (what its reply changes).
- `sessions` — the session container: routing table, lifecycle, manager,
  caches, and the session-manager command line.
- `sea` — the SEA agent's settings, errors, command-line and REPL input
  handling, and its run-time record of servers.
- `cli` — menu choices of the interactive agent.

`app/` holds what is not verified: the programs' entry point, terminal
interaction, file and network access, and serde copies of the library's
records. `tests/` holds the tests.
