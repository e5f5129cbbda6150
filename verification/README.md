# erp_api

The back end of a small jewellery-order ERP: customers, goods and their
colour SKUs, orders imported from customer spreadsheets, and the marks that
production departments put on each order item as it moves through the
steps of making it.

- `src/` is the library, verified with Verus. It builds every SQL text the
  service sends, reads order spreadsheets (header, item rows, grouping of
  rows into styles, the pictures to copy out), decides what an import adds
  to the store, works out where each item and each style stands in
  production and who may mark it next, and assembles the listings and
  statistics the service answers with.
- `app/` is the HTTP service around it (axum, sqlx on Postgres,
  umya-spreadsheet for workbooks). It moves rows in and out of the
  database and files to and from disk, and hands everything else to the
  library.
- `tests/` runs the library on concrete values.
