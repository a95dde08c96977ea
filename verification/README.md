# Clip Relay

A self-hosted clipboard: text, images and files are put into a list, shared by
links, and pushed to every open client.

- `src/` is the library. It holds what the server decides and computes: who may
  pass, what a link still allows, what a request changes in the database and
  whom it tells, how the listing is cut into pages, how a file is received, which
  static file is sent and where the data lives. It is verified with Verus.
- `app/` is the server around it: axum routes, the queries that read from
  SQLite, files, the environment, and the pace of the event stream. It is run on
  Linux; paths follow the rules of Unix.
- `tests/` run the library, some of them against SQLite in memory.

A request handler of the library never writes to the database. It returns a list
of `store::Change`s; `store::statement` gives the SQL of each, and
`store::Store::after` says what it does to the two tables. `lifecycle` states what
holds of the tables across several requests.

| Module | Subject |
| --- | --- |
| `auth`, `cookie` | the password, its cookie, and who may reach the API |
| `share`, `settings`, `qr` | share links, for visitors and for owners |
| `items`, `upload`, `listing`, `delivery` | items, their files, the listing |
| `events` | what every open client is told |
| `store`, `lifecycle` | the tables and what becomes of them |
| `statics`, `path`, `storage`, `config` | static files, paths, start-up |
| `text`, `number`, `clock`, `token`, `form`, `reply` | plain values |
