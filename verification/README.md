# practicedb

A small SQL database engine: a parser for a handful of statements
(`create`, `insert`, `select`, `delete`, `exit`, with `where` / `and` / `or`
conditions), a binary row format, and 4096-byte slotted pages. The library is
written in Verus; every function in `src/` carries a contract that Verus
proves.

## Layout

- `src/text.rs`, `src/message.rs`, `src/bytes.rs`: whitespace splitting,
  integer parsing and printing, message building, little-endian fields.
- `src/enums.rs`, `src/structs.rs`, `src/value.rs`: the words of the language,
  the query and schema records, typed column values and their comparison.
- `src/parsing.rs`, `src/sql.rs`: one handler per keyword, and the driver that
  runs them over a statement. Schemas come from a catalog the caller passes;
  when one is missing the driver says which table it needs.
- `src/row.rs`, `src/evaluate.rs`: encoding and decoding rows, reading single
  columns by their declared types, and evaluating conditions on the columns
  they name.
- `src/page.rs`, `src/scan.rs`, `src/cache.rs`: storing and removing rows on a
  page, scanning a page for `select` (the rows the conditions match) and
  `delete` (removing them), and the pages held in memory.
- `src/create.rs`, `src/describe.rs`: the schema a `create` describes, and the
  one-line description of a parsed query.
- `src/laws.rs`, `src/page_laws.rs`: properties across operations, such as
  rows reading back as written and pages staying well formed.
- `app/`: the interactive shell, file access and the JSON catalogs.
- `tests/`: tests on concrete values.

## Page layout

| Bytes | Field                                   |
| ----- | --------------------------------------- |
| 0     | page id                                 |
| 1     | row count                               |
| 2–3   | size of the stored rows                 |
| 4–5   | space remaining, header and slots counted |
| 6     | log sequence number                     |
| 7–8   | header size, slots included             |
| 9–10  | freed space                             |
| 11..  | slots: row length, then offset from the end of the page, two bytes each |
