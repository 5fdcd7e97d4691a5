# aionui

The verified core of the AionUi server: the rules behind conversation
workspaces, agent session transcripts, file search, office previews, team
task boards and the API's error answers, written in Verus and proved
against their contracts.

- `src/` — the library. Each module states its behaviour as `requires` /
  `ensures` over spec functions and views; public proof functions state
  the laws that span several calls (task completion unblocking dependents,
  search continuation tokens, workspace search pages continuing where the
  last one stopped, cursor binding, listing order, upload-limit
  precedence, model-catalog rewriting).
- `tests/` — executable tests of the library, run against the real
  outside crates (base64, serde_json, sha1, uuid).
- `app/` — the command-line front end: environment, file system and
  directory walking, reading session files line by line (the lines are
  decoded by `records`), and printing.

Not carried over: the CSV-to-workbook conversion of office previews, which
reads CSV files (`csv`, `encoding_rs`, `encoding_rs_io`) and writes Excel
workbooks (`rust_xlsxwriter`). The library keeps its decisions (delimiter
guessing, sheet and cell limits, the workbook path); the reading and writing
themselves are in neither `src/` nor `app/`: this build does not depend on
those crates. Likewise the database repositories and the
HTTP routes stay outside: the library holds their decisions as step
functions (`ratings::rating_step`, `config_options::switch_begin` /
`switch_answered`, `preview::start_step`, `workspace::browse_plan` /
`browse_allowed`, `summaries::codex_inspect_step`), and the OpenCode
listing query as `summaries::opencode_list_sql`, whose `None` is the empty
listing of a database without a usable session table; the rows of an
OpenCode session are decoded by `records::opencode_message`. The SQLite
reads themselves are not in `app/`, since this build does not depend on a
SQLite crate, and the preview front end has no officecli installer to call.
