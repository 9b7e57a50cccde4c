# warden-ctl

The operator command line of Agent Warden, `wardenctl`, with its decisions in a
verified library.

`src/` is the library, written in Verus. It holds the argument records, what each
command asks of the services, and every line and exit code that it leaves behind.
Each function states in its contract what it returns; the laws that relate
several functions stand beside them as proof functions.

| Module | What it decides |
|---|---|
| `agents` | the `agents` verbs: requests, tables, reports, create-if-absent |
| `migrate` | bulk enrollment: the names file, one name after another, the summary |
| `policy_lab` | `policy test`: windows, plans, replays, verdict counts, regressions |
| `policy_library` | `policy library`: filters, the table, installation |
| `policy_scaffold` | `policy scaffold`: the fresh rule file and where it goes |
| `regulatory` | `regulatory export`: the window, failures, the bundle's size |
| `mcp_bridge` | `mcp-bridge`: frames in, posts, replies and refusals out |
| `config`, `report`, `registry` | addresses and tenants, exit codes, registry rows |
| `text`, `json`, `time`, `paths` | text, JSON texts, instants, paths |

What the library takes from `serde_json`, `chrono`, `url`, `reqwest` and the
standard library stands behind small wrappers; the comment above each says what
its contract claims of the call.

`app/` is the program around the library: argument parsing, files, standard
streams and the calls of the services. `tests/` runs the library on concrete
values.

## Exit codes

| Code | Meaning |
|---|---|
| 0 | success |
| 2 | bad arguments, or a service's 400, 404 or 422 |
| 3 | no usable credentials, or a service's 401 or 403 |
| 4 | conflict, or a service's 409 |
| 5 | any other failure |
