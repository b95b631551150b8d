# codex_core

The rules by which a group of agents works together: how they send each other
messages and wait for replies, what the office of their owners keeps and shows,
how tools are run behind a gateway, and how conversations become chats for
providers that know nothing else. The rules are executable Rust, and Verus proves
that they do what their contracts say.

## Layout

- `src/` is the library. Every function in it is verified, but for a few small ones
  that only make a call into an outside crate or std: those are trusted.
  - `text`, `text_set`, `table`, `paths`, `markup`, `json`, `time`, `ids`: text as
    sequences of characters, tables by text, Unix paths, HTML escaping, JSON
    objects, times and thread identities.
  - `protocol`: what sessions, agents and tool calls are.
  - `tools/handlers`: inboxes and the replies that are owed, and the tools `call`,
    `wait` and `read_agent_status`.
  - `tools`: who handles a tool call, where it is run, and how a request becomes a
    command in a container without leaving the workspace.
  - `office`: people, their agents, what the agents do, the blackboard, the
    memory, the messages, and the pages that show all this.
  - `chat_history`, `chat_stream`, `provider_adapter`: conversations as chats.
  - `prompt_paths`, `swarm`: what prompts are made from.
- `tests/` runs the library from outside.
- `app/` is ordinary Rust around it: files, HTTP, processes, the clock, and the
  copies of the library's types that serde reads and writes.

## Reading the contracts

The contracts speak of mathematical models: a type's view, or a spec function
next to it, says what a value is, and each operation says which model it leaves
behind. What several operations promise together stands in public proof functions
whose names begin with `law_`.

What comes from outside crates is behind functions marked as trusted in their
comments: Verus takes their contracts without proof. Where the result takes more
than a few lines to state, it is named by a spec function without a body, so that a
contract can say exactly what is done with it.

Times, environment variables, fresh ids, and what a file system or a container
runtime says are arguments. A function that needs to know something first says
what, and is called again with the answer.
