# agmsg_tui

The logic of a terminal user interface for teams of command-line agents that exchange messages,
written in Verus. The functions of `src/` are verified against their contracts, but for the small
ones that call other libraries (see below); `app/` is the program around it, which reads the
database and the files, runs the scripts and draws the screens.

## Layout

- `src/app/`: the state of a session. A key, a click, a timer or a finished script goes in; the new
  state and an action come out. Where the state needs rows of the database it asks for them with a
  query, and goes on when the reply is there.
- `src/db/`, `src/bulk/`, `src/health/`, `src/audit.rs`, `src/audit_history.rs`: what is computed
  from the rows and files that were read.
- `src/exec.rs`, `src/remote.rs`, `src/launchagent.rs`: the commands that are run, and what their
  output means.
- `src/keys/`, `src/config.rs`, `src/state.rs`: key bindings, settings and what a session saves.
- `src/highlight/`, `src/color.rs`, `src/palette.rs`, `src/notify.rs`, `src/clipboard.rs`,
  `src/timefmt.rs`: how messages are shown.
- `src/strings.rs`, `src/search.rs`, `src/lines.rs`, `src/order.rs`, `src/sorting.rs`,
  `src/json.rs`, `src/clock.rs`: texts, orders, JSON documents and times.
- `tests/`: the library on concrete values.
- `app/`: `main`, the command line, the database, processes, the terminal and the drawing.

Public proof functions state what holds across functions: that a draft comes back, that nothing
destructive runs without `YES`, that only one operation runs at a time, that what was written is
read back.

## What is not proved

Calls into chrono, serde_json, toml and syntect, and into a few functions of the standard library,
stand behind small functions whose contracts are believed. Each says in its comment what it claims.

## Settings

The name of the lead family of CLI types comes from the variable `AGMSG_CLI_FAMILY`, or else from
the first registered agent whose type ends in `-code`: with a family
`f`, the type `f-code` is offered first, and names like `f` and `f-sub1` break the naming rules.
