# scli

A token-frugal Slack command line: compact, line-oriented output driven by a
single user token (`SLACK_TOKEN`, or workspaces saved in
`~/.config/scli/config.json`).

The crate is a Verus library with a thin program around it.

- `src/` is the verified library. Every decision and every line of output is
  made here, with `requires`/`ensures` contracts proved by Verus:
  - `json` — the JSON values that the Web API, the config and the cache hold,
    with `serde_json`-style lookups;
  - `api` — Web API requests (URL, headers, form) and the check of replies;
  - `listing` — messages, channels, users, attachments, files and reminders
    as lines, and the paging of `read channels` / `read users`;
  - `cache` — the id↔name cache, its JSON form, freshness, `read ls`, and
    the paging that refetches it;
  - `resolve` — `C…`/`#name`/`@user` and `U…`/name arguments to ids;
  - `config` — config and cache paths, choosing the workspace, `write auth`,
    `write default`, `read workspaces`;
  - `compose` — drafts, posts, reactions, reminders and file uploads;
  - `version`, `update`, `digest` — release tags, the update decision,
    `SHA256SUMS` checking and the once-a-day notice;
  - `text`, `error` — string helpers and the error messages.
  Laws that span several calls are public `law_*` proof functions.
- `app/main.rs` parses arguments, reads the environment and files, makes the
  HTTP requests and prints; it drives the library's state machines.
- `tests/` runs the library on concrete values.
