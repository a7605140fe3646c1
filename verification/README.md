# tables

Tables of named columns, and the logic of the query and plot windows that
show them.

- `src/column.rs`: columns of integers of several widths, reals (held by
  their decimal text), decimal numbers, text and binary data, possibly with
  missing entries; how entries are shown and which SQLite type each kind has.
- `src/table.rs`: the table (all columns of one length), its text rows,
  comma-separated text and SQL (`create table` and `insert` statements).
- `src/columns.rs`: named references to columns of one or more tables.
- `src/csv.rs`: reading a table back from comma-separated text, and the law
  that writing and reading a table keeps its shown text.
- `src/sqlite.rs`: building a table from the rows of a SQLite query.
- `src/numeric.rs`, `src/text.rs`: integer and real-number text, splitting and
  joining.
- `src/queries.rs`, `src/layout.rs`: the decisions of the query window and of
  the plot layout menu.
- `app/`: the GTK windows, the SQLite and PostgreSQL glue, and the reading of
  columns as floating-point numbers for plots.
