# wmcssh

The core of an SSH desktop client, verified with Verus: host records and
their validation, the keys under which secrets are stored and the
file-backed secret cache, remote path handling, directory listings and
directory transfer plans, terminal settings, the session history, log
rotation, the registry of open sessions and the decisions of the
interactive session loop.

- `src/` is the verified library.  Every public function states its result
  in `requires`/`ensures`; the properties that relate several functions
  are proved as `law_*` proof functions next to them.
- `tests/` exercises the library on concrete values.
- `app/` is the unverified side: SQLite storage (`sqlx`), SSH and SFTP
  (`ssh2`), file and log I/O, the worker threads and the wiring of the
  services.  It carries out what the library decides.  The desktop window
  and its command bindings (Tauri) are not built here; `app/app_state.rs`
  gathers the services they would call.
