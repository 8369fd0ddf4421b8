# Shally

Shally connects shells (zsh, fish, bash) and Starship to plugins and to an
AI command assistant. The library in `src/` is written in Verus: each public
function carries a contract, and Verus proves the code against it.

## Layout

- `src/shell_core`: the plugin trait, the shell state and `StringMap`, the
  ordered key/value map that hooks exchange.
- `src/zsh`, `src/fish`, `src/bash`, `src/starship`: shell hooks, install
  snippets and the `SHELLAI_*` export.
- `src/hooks`, `src/cli`, `src/commands`, `src/config`: what each command
  line asks for, and where the configuration file is looked for.
- `src/history`: the persistent command history (bounded storage, search,
  relevance ranking for AI requests).
- `src/smart_history`: deduplicated history with typo-tolerant search and
  frequency and recency rankings.
- `src/ai`, `src/ai_core`: AI settings, prompts, how a reply is read and when
  the assistant steps in.
- `src/text`, `src/fuzzy`, `src/ranking`: string, edit-distance and stable
  ranking utilities shared by the above.
- `app/`: the `shally` binary: argument handling, files, environment,
  network requests, logging and the YAML/JSON formats.
- `tests/`: tests of the library.

Scores that are fractional in the user-facing descriptions are kept as
integers: search scores in points, AI relevance in tenths of a point and
confidence in percent.
