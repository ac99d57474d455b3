# git_msg

A commit-message generator for Git: it reads the staged (or working-tree)
diff, asks an OpenAI-compatible chat endpoint for a message, cleans the
answer, and commits it after the user agrees.

## Layout

* `src/` — the library, verified with Verus:
  * `text` — character-sequence operations (`lines`, `trim`, `replace`,
    `join`, decimal numbers) with their specifications;
  * `filter` — splitting a diff into files, ignore patterns, two-tier
    truncation;
  * `redact` — hiding API keys and tokens before a diff is sent;
  * `prompt` — the system and user messages;
  * `sanitizer` — turning a model's answer into a bare message;
  * `config` — defaults, file layering, environment and flag overrides;
  * `llm` — endpoint URL, request body, meaning of a response;
  * `git` — the decisions around `git diff`, `status`, `log` and the editor;
  * `ui` — menu entries and the geometry of the message box;
  * `session` — the steps of a run, from the collected diff to the commit.
* `app/` — the executable: command-line parsing, files, processes, HTTP,
  terminal drawing; it performs what the library's steps ask for.
* `tests/` — tests of the library.
