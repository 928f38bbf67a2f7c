# RustAgent

An agent that manages Minecraft mods. The user says in plain language what they want; a language
model calls tools that search the catalogues of Modrinth and CurseForge, build a `.mrpack` file
that launchers can install, repair one that exists, and keep a database of what the user likes.

The library under `src/` holds the logic, and Verus proves it: every function states in its
contract what it returns, and public proof functions named `lemma_..` state what holds of the
library as a whole. The program under `app/` is ordinary Rust around it. It reads and writes
files, talks to the services, and runs the terminal and the web server.

| Module | What it holds |
| --- | --- |
| `agent` | turns of a conversation: model calls, tool calls, interruptions, the token budget, trimming |
| `llm` | messages, requests, and replies that come in as a stream of events |
| `closure` | the search for the mods that chosen mods require |
| `pipeline` | recommendations: taste, ranking, keywords, presets |
| `database` | ratings, weights of tags, packs, and the rows that they are stored as |
| `modrinth`, `curseforge`, `manifest`, `sidecar` | the catalogues, what a mod's file says it depends on, and what is kept beside a file that was fetched |
| `tools` | the tools that the model can call; `build_run` and `repair` lead through building and repairing |
| `history` | saved conversations |
| `config`, `settings_file` | the settings and the file that they are kept in |
| `cli`, `ui` | the terminal and the web interface |
| `selftest`, `sample` | a check of the services, and a small pack without the model |
| `json`, `archive`, `digest`, `text`, `number`, `order` | what the others are built from |

Calls into outside crates stand behind small functions marked `external_body`. The comment above
each says which function it calls and what is taken on trust.
