# brain

One continuous conversation behind a plain interface. The brain notices when
the topic drifts and splits the thread, compacts what no longer fits the
context window, recalls related conversations, and runs tools, asking the user
first where a tool needs it. The library is written and proved in
[Verus](https://github.com/verus-lang/verus).

## Layout

- `src/models`, `src/language_model.rs`, `src/summarizer.rs`,
  `src/topic_detector.rs`, `src/memory_index.rs`: the data, each type with its
  mathematical view.
- `src/orchestrator`: the turn of a user (`turn`) and the answer to it
  (`tool_loop`) as state machines that ask for one thing at a time, the
  decisions they make (`decisions`), and what holds of every run (`turn_laws`,
  `tool_loop_laws`).
- `src/conversation_store.rs`: what a store holds, what its operations do, and
  the laws about what it lists.
- `src/tool.rs`, `src/tool_index.rs`, `src/tool_search.rs`: tools, their
  registries, and the discovery of hidden tools.
- `src/prompts.rs`, `src/prompts_embedded.rs`, `src/template_tags.rs`: templates,
  their rendering, and which tags they may hold.
- `src/mistral`, `src/exa`, `src/surreal`: what is sent to and read from the
  services: requests, server-sent events, queries, records and migrations.
- `src/evals`: datasets, scorers and metrics.
- `src/cli.rs`: the state of the terminal client and the layout of its screen.
- `src/testing`: stores, models and registries that live in memory.
- `src/text.rs`, `src/order.rs`, `src/identity.rs`, `src/time.rs`,
  `src/json.rs`, `src/failure.rs`: what the rest is built from.
- `tests`: the library as its users see it.
- `app`: the terminal client around the library: HTTP, the database and the
  screen.

Similarities are floating-point numbers outside the library and integers of
the same order inside it. A JSON document is held as the text it was read
from.

## Running

The client reads `MISTRAL_API_KEY` and, optionally, `EXA_API_KEY`, which
enables web search. It keeps conversations in SurrealDB, by default at
`ws://127.0.0.1:8000` as `root` / `root`.
