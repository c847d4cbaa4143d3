# recopied

A clipboard history manager. `src/` is the verified library (Verus):

- `item` – stored and new history entries.
- `order` – the listing order (pinned first, then most recent) and a verified sort.
- `pattern` – SQL `LIKE` matching used by search, verified against its definition.
- `history` – the history itself: insert with hash dedup and pruning to a limit,
  paging, search, pin, delete, clear, paste lookup.
- `watcher` – when a clipboard read is a new copy; SHA-256 hashing in lowercase hex.
- `notification`, `settings`, `window`, `text` – notification text, settings and
  their defaults, window placement, byte-length cutting of UTF-8 text.
- `laws` – properties proved across operations.

`app/` is the desktop program around it: the SQLite store, the watcher thread,
notifications, the tray, shortcuts and window handling.
