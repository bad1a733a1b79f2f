# casa

A small web service for keeping notes, reminders and contacts about things
("cosas"), behind a single login.

- `src/` is the verified library (Verus): credentials and session tokens
  (`auth`), the one-time configuration slot (`config`), calendar dates and their
  rendering (`dates`), the form records (`forms`), what each request handler
  decides before it touches the database (`handlers`), the listed records
  (`models`), page data (`templates`) and text helpers such as Unicode trimming
  and decimal rendering (`text`).
- `app/` is the server around it: environment variables, the SQLite pool, the
  axum routes and middleware, and the askama pages.
- `tests/` exercises the library with the real outside crates linked.
