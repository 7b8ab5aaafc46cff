# labalaba

The rules of a desktop process manager, verified with Verus, and the daemon
program built around them.

- `src/` is the verified library. It holds what the manager decides: task
  validation and configuration, the task lifecycle with its crash-restart
  backoff, the persisted task list, log lines (format, parsing, paging
  through rotated files, rotation plan, ANSI stripping), process identity
  checks against recycled pids, the process tree of a task, cron schedules,
  update checks, settings and their defaults, the API's authorisation and
  answers, and the front end's decisions about the daemon it drives.
- `app/` is the daemon: the HTTP/WebSocket server, file and process I/O,
  and the loops that start, watch, restart and schedule tasks. It calls the
  library for the decisions; what stays in it is sequencing (waits and
  deadlines, skipping a stop with no recorded process) and I/O.
- `tests/` exercises the library on concrete values.
