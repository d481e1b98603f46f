# spacebot

The decisions, rules and renderings of an agent daemon and of the command line
that drives it, written in Rust and verified with Verus.

- `src/` is the library. Every function states what it returns or changes, and
  Verus proves it; functions named `law_…` state what holds across several of
  them.
- `app/` is the program: the command line, the daemon, and the HTTP, SQLite,
  redb, file and terminal work round the library.
- `tests/` runs the library on concrete values, with the real outside crates.

## The library

| module | what it holds |
| --- | --- |
| `agent` | chronicle cuts and their view, the inbound relay, process control, maintenance |
| `api` | what each endpoint of the control API answers |
| `cli` | what each command sends, and what it prints of the answer |
| `commands` | slash commands: parsing, permissions, help, the control plane |
| `conversation` | the message log, the chronicle store, channel settings |
| `identity` | identity files and their rendering |
| `lifecycle` | shutdown and restart |
| `llm` | histories and their repair, captured prompts |
| `memory` | rendering and consolidation of memories |
| `projects` | worktrees of projects |
| `prompts` | prompts and the map of their blocks |
| `questions` | questions that wait for an answer |
| `schedule` | cron expressions and intervals |
| `settings` | the settings of an agent |
| `skills` | discovery, frontmatter, archive and usage of skills |
| `tasks` | tasks, their states and priorities |
| `version` | the version that a build names |
| `json`, `order`, `paths`, `table`, `text`, `time` | what the others are written in |

Instants are seconds since the Unix epoch, with their nanoseconds where these
play a part. Costs, sizes, scores and
percentages reach the library as the text that is shown.

## What is trusted

A few calls into outside crates stand behind wrappers whose contracts Verus
does not prove: calendar formatting (chrono), time zones (chrono-tz), cron
expressions (cron), JSON (serde_json), URL encoding (urlencoding) and
the lower case of a text (std). Each says in its doc comment what it claims.
