# crypto_tracker

A terminal tracker of crypto-currency prices (CoinGecko data, SQLite
storage, a ratatui interface), split in two:

- `src/` is the verified library: the token-list file format and its
  reconciliation with the database, the request addresses, the configuration
  fallbacks, the check of query names, the selection state of the interface
  and its key handling, the decisions and reports of the refresh tasks, and
  the date texts obtained from `chrono`.
- `app/` is the program around it: prompts, files, the database, HTTP
  requests, the refresh tasks and the terminal drawing, plus the
  floating-point work on prices.
- `tests/` runs the library on concrete values.
