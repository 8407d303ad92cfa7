# minikv

A small key-value store with a write-ahead log and snapshots, served over
TCP one command per line (`set`, `get`, `length`, `snapshot`).

- `src/` is the library, verified with Verus: command parsing
  (`command`), error codes (`error`), replies (`protocol`), the store and
  the replay of its log (`kv_store`), the log and snapshot line formats
  (`persistence`), the server's decisions (`server`), and the laws that tie
  them together (`laws`).
- `app/` holds the program around it: files, sockets, threads and channels.
- `tests/` runs the library on concrete values.
