# memedb

The back end of MemeDb, a tagged image library. `src/` is the verified core:

- `api` — the records exchanged with the GUI (file, folder, tag and database details, pages, errors).
- `tags` — the tag graph and the ancestors of a tag.
- `folders` — the folder map and the `LIKE` pattern of a folder.
- `query` — file queries, their validity, and the SQL text and parameters they become.
- `cache` — the query-size cache.
- `context` — the open databases and the GUI commands that need no I/O.
- `encoding` — base64 encoding of images.
- `text` — decimal formatting.
- `laws` — properties that hold across these operations.

`app/` holds the SQLite access, file reading, the serializable copies of the records and a
command loop that reads JSON requests from standard input.
