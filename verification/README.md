# hubu_core

The governance core of Hubu: agent registration, users, spending policies
and their evaluation, budgets with holds, spend authorization and auth
tokens, executor claims on authorized spend, provider accounting checks,
feedback reports and log rotation.

`src/` is verified with Verus. Every public function states what it returns
or changes over spec functions and views, and the laws that relate several
operations (budget accounting, replay of spend decisions, registration
reuse, rotation bounds, and others) are public proof functions next to the
code they speak of, in the `laws` modules and beside their types.

Outside crates are reached through a few trusted wrappers, each with a doc
comment saying what its contract claims: `uuid` for fresh identifiers and
UUID parsing, `chrono` for the clock and RFC 3339 rendering, `sha2` for
digests, and `serde_json` for the JSON text the accounting checks and
feedback diagnostics read and write.

`app/` is the unverified layer around the core: YAML policy files, the JSON
forms of feedback and settlement receipts, the rotating log file, SQLite
storage of users, agent registrations and executor claims, the spend
approval flow and the budget limit update that interleave storage with the
core's decisions, and the log events of the core's operations. `tests/`
exercises the library from outside.
