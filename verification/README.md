# todo_tui

A personal todo and notes manager whose core is verified with Verus.
Each todo or note is a directory holding a `CONTENT.md` file: TOML front
matter between `---` lines, then a free-form markdown body.

## Layout

- `src/` — the verified library. Every public function states what it
  returns in its `ensures`; the laws of the library are public proof
  functions (`lemma_*`).
  - `content`: splitting and writing `CONTENT.md`, title slugs.
  - `store_rules`: directory names, refusals and commit messages of the
    file store.
  - `listing`: reading item dates and listing the live items oldest first.
  - `validate`: front-matter checks and the report of `todo validate`.
  - `tui_model`, `tui`: the todo and notes browser as a state machine
    that asks for store calls and takes their outcomes back.
  - `editor_model`, `editor`, `screen`: the vim-like body editor and what
    its screen shows.
  - `journal_model`, `journal`: the single-file browser and its event log.
  - `store_config`, `api_config`, `api_error`, `api_url`, `auth`, `mailer`:
    configuration, API errors and URLs, OIDC/PKCE helpers and SMTP settings.
  - `text`, `keys`: character and string helpers, key presses.
- `app/` — the program around it: command line, terminal, files, git,
  HTTP and SMTP. It hands the library plain values and performs what the
  library asks for.
- `tests/` — tests of the library on concrete values.
