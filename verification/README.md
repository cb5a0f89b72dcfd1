# knowforge

The verified core of a knowledge-workspace assistant: the rules by which it
talks to language models, calls tools, keeps a long-term model of its user,
indexes notes and runs skills. Every function under `src/` carries a
contract that Verus proves; the calls into outside crates go through a few
trusted wrappers. A wrapper either states what the crate documents, or
names its result when that is a function of the arguments alone, or — for
the clock and random ids — states only what holds of every outcome.

## Layout

- `src/` — the library, one module per concern:
  - `text`, `message` — string helpers with UTF-8 byte accounting; chat
    messages.
  - `provider`, `stream` — tool-name mapping, wire form of messages, SSE and
    NDJSON line splitting, assembly of streamed tool calls.
  - `agent`, `context`, `results`, `tiered`, `chat` — the agent loop's
    decisions, context trimming and summarizing, tool-result compression,
    the planning/generation split that keeps private notes local, and the
    chat-turn set-up.
  - `memory`, `corrections`, `domains`, `injection`, `extraction`,
    `workspace`, `tags` — the user model: merging corrections, sessions and
    knowledge domains, the prompt block, extraction and reflection, the
    workspace profile.
  - `skills`, `registry`, `approval`, `commands` — skill manifests and files,
    the registry, per-conversation tool approvals and pending approval
    requests.
  - `semantic`, `privacy`, `passive` — chunking and index bookkeeping,
    `kf-private` frontmatter, passive-highlight detection.
- `tests/` — tests of the library's public functions on concrete values.
- `app/` — a command-line program around the library: files, HTTP, SQLite,
  serde forms of the types, and the computations on floating-point values
  (domain confidences, similarity scores). Its drivers for the agent loop,
  the tiered agent, the chat context, reflection and approvals perform the
  requests and hand the library's step functions what came back.

## What lives elsewhere

The desktop shell, the tool registry and its tools, the vault keyword and
semantic search services, the embedding model runtime and the thought
database are separate components. The library's functions take what they
produce as arguments (search hits, rebuilt snippets, tool results, the
registry's `unregister` as a closure), and the app's drivers take them as
parameters; the index rebuild and the seeding of thoughts have no driver
here.
