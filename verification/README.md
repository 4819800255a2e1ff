# hindsight-agent

A command-line client that gives AI agents long-term memory in a Hindsight
server: it records which bank and API each agent uses, sets agents up (bank,
templates, content, harness), and reads and writes their memories and wiki
pages.

The library under `src/` is written in Verus and verified:

- `json` — a plain model of JSON values and member lookup.
- `text` — character-level helpers (white space, replacement, search, joining,
  trimming) with their specifications.
- `config`, `config_json` — the table of configured agents, lookup of an
  agent, and the JSON form of the configuration file, with the proof that
  writing and reading it back gives the same table.
- `api` — the client: the request each operation sends, and how each reply
  is judged.
- `content_dir` — which files of a content directory are ingested, in which
  order, and under which document id.
- `commands` — the decisions of the commands (content sources and checks,
  document ids, harness set-up).

`app/` holds the command-line front end: argument parsing, files, the HTTP
transport and outside programs.
