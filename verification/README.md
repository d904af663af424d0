# parquet_ruby_adapter

The verified core of a Ruby extension that writes Parquet files.

`src/` is checked by Verus:

- `value` — Parquet cell values and the estimate of the memory they hold.
- `text` — character-level comparison, search and lower-casing of texts.
- `compression` — the compression option, matched without regard to case,
  and the Parquet compression setting it selects.
- `bloom` — validation of the bloom-filter argument into per-column
  configurations.
- `props` — the writer-properties builder: compression and per-column bloom
  filters with capped distinct-value counts.
- `conversion` — classification of value-conversion failures.
- `rows` — row validation and the batching of rows between writes.
- `columns` — assembly of columns from batches of column values.
- `args` — string-or-symbol names, block-or-enumerator dispatch and the
  keyword arguments of the reading enumerators.

`app/` holds the Ruby-facing side (argument extraction with `magnus`, file
and IO handling, the write loops), which hands plain values to the library.
`tests/` exercises the library on concrete values.
