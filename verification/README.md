# warthog

The core of the warthog version-control service, verified with Verus.

- `src/` is the verified library: the project cache (`db`), the answers to
  pipe requests and the commands they produce (`ipc`, `protos`), the project
  a changed path belongs to (`processor`), the events the folder watcher
  reports (`watcher`), the configuration defaults (`utils`), the repository
  layout and block deduplication (`vcs`), and the Unix path and string logic
  they rest on (`paths`, `text`).
- `app/` is the service around it: the socket server, the SQLite queries,
  the file-system watcher, the daemon set-up and the wire encoding of the
  schema messages.
- `tests/` runs the library on concrete values.
