# giglog_devtools

Development tools for the gig-log workspace, written in Verus: the logic is
a verified library, and a thin program drives the terminal, the processes,
the files and the database around it.

The program `gig-log-dev-tools` has these subcommands:

- `dev`: runs the API and the web dev server, watches `web/`, `api/`,
  `common/` and `dev-tools/`, rebuilds and restarts what a change needs,
  regenerates the docs, relays the browser's logs and shows every service's
  output in one terminal view.
- `docs`: builds the workspace documentation, serves it on port 7007 and
  rebuilds it on change; `docs-index` writes only its landing page.
- `setup`: writes missing `.env` files from their `.env.example` templates,
  starts Postgres, runs the migrations and builds the workspace.
- `api-tester`: a terminal client for saved HTTP routes with global and
  per-route variables.
- `db-viewer`: a terminal browser and editor for the database's tables.

## Layout

- `src/` is the library. Every function in it is checked by Verus against
  its `requires`/`ensures` contract; the laws the tools keep (what a key
  does to a list, what one call undoes, what every operation preserves)
  are public proof functions beside the code they speak of. Calls into
  outside crates (serde_json, chrono, http, rand, ratatui's line counting)
  stand behind small wrappers whose contracts say what those crates
  document.
- `app/` is the program: argument parsing, terminal drawing, processes,
  files, HTTP and SQL. It hands the library plain values and performs the
  work the library's state machines ask for.
- `tests/` runs the library on concrete values.
