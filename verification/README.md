# nps

The verified core of an intranet-penetration server (NPS) and of the
generator that turns `CREATE TABLE` scripts and mapper files into DAO source.

- `src/` — the library, verified with Verus:
  - `make_dao/` — table and mapper descriptions, the SQL script and mapper
    file readers, and the generated DAO source;
  - `nps/` — tunnel keys, connection framing, session headers, connection
    pools and traffic bookkeeping;
  - `web/` — request-error answers, form checks, login, charts and the data
    shown on the management pages;
  - `model/`, `dao/`, `extension/`, `application.rs`, `util/` — counters,
    rows, number formatting, restart state and clock readings;
  - `text.rs`, `utils.rs` — text as sequences of chars, with their meaning as
    spec functions.
- `tests/` — tests on concrete values.
- `app/` — the command-line program: reads the scripts and mapper files from
  disk, writes the generated files, restarts the process, and formats sizes
  and charts in floating point.
