# claude_code_launch

A launcher and monitor for a command-line coding agent: it installs the agent
with npm (setting up Node.js on Windows when needed), checks the installation,
and runs a local HTTP service that collects the events the agent's hooks
report, imports session transcripts incrementally, discovers past sessions,
and has a language model evaluate events for risk and efficiency.

## Layout

- `src/` — the verified library (Verus). Each module states its behaviour in
  `requires`/`ensures` contracts over mathematical models and proves it:
  - `text`, `json` — text helpers and a JSON value with its model; redaction
    of secret-looking keys.
  - `process_log` — log events of running commands, ANSI/control stripping.
  - `transcript` — incremental line splitting of transcript files, read
    planning, path validation, transcript pages.
  - `evaluation` — provider request planning, reply interpretation, error
    classification, structured output parsing.
  - `collection` — event admission, sampling, evaluation jobs and records,
    API refusals.
  - `settings`, `queries`, `discovery`, `hooks`, `config_scan`,
    `app_config`, `path_env`, `install`, `models`.
- `tests/` — tests of the library on concrete values.
- `app/` — the program around the library: the axum HTTP server, SQLite
  storage (rusqlite), provider HTTP calls (reqwest), file scanning and
  watching (linemux), process running, and the command line
  (`serve`, `prereqs`, `install`, `verify`, `schema`, `log`).

## Running

The program manages one coding agent, named by its command in the
`LAUNCH_AGENT` environment variable; the agent's directories, package and
display name derive from it. `CLAUDE_CODE_LAUNCH_CONFIG_PATH` overrides the
configuration file, and `CLAUDE_CODE_LAUNCH_PORT` the HTTP port (8787).
