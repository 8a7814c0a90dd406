# mailbackup_core

The core of an incremental, read-only e-mail backup tool, written in Verus.
Every function in `src/` carries a contract; Verus proves them all except
those of the small wrappers around outside crates, which are trusted (see
below).

- `src/` — the verified library: account configuration and export paths,
  CSV bulk import, archive layout and checksums, sealed credentials, the
  search query builder, the IMAP sync decisions (folder filters, UIDVALIDITY
  resets, and the sync of a folder as a step function: read-only commands,
  new UIDs only, UID checkpoints), mbox rendering, retention, schedules, the
  event log, service and launch-at-login registration as step functions, and
  the decisions of the web API.
- `tests/` — tests of the library on concrete values.
- `app/` — the program around it: the command line, the SQLite catalog, the
  IMAP connection, the web server, files and system commands. It performs
  the actions the library decides on and hands back their outcomes.

Outside crates are called from `src/` through small trusted wrappers whose
doc comments say what is assumed of each call.
