# octa

The logic of the Octa dashboard and its two agents (a knowledgebase agent and
a GitHub watcher), written in Verus with its contracts proved.

- `src/` is the verified library.
  - `text`, `case`, `digest`, `ids`: character-level text operations with their
    exact meaning, Unicode case mapping, SHA-256 and hex, and UUIDs held as
    `u128`.
  - `protocol`: the agent manifest, health answers and the shared-secret check
    that guards agent endpoints.
  - `dashboard`: settings, sessions and API keys, the login and admin
    decisions, GitHub login steps, agent discovery and proxying, platform
    secrets, migrations ordering, analytics parameters.
  - `kb`: the knowledgebase agent's settings and secret resolution, request
    identity, knowledgebase, folder, chat and document checks, the
    Obsidian-style vault export and the reading of exported notes, and the
    bookkeeping of an import (ids by path, folders to create from the top
    down, counts and errors).
  - `watcher`: the watcher's settings, GitHub requests and commit records,
    repository checks and commit summaries.
- `tests/` runs the library on concrete values.
- `app/` is the program around it: one binary that runs `dashboard`,
  `migrate`, `knowledgebase` or `watcher` (first argument), with the HTTP
  routes, the database, and the calls to GitHub, the agents and the model.
