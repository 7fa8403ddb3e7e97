# gytags_roster

A roster of Discord guild members and the badges their roles earn them,
served over HTTP and a websocket (protocol version 1), and kept fresh by a
scraper that reads the guild's member sidebar through the Discord Gateway.

## Layout

- `src/` is the library, verified with Verus. Each public function states
  what it returns in its `ensures`; the laws that span several functions
  are public proof functions beside them.
  - `domain`: nickname keys, badge rules, roster records.
  - `api`: how stored records are presented to a client (found, ambiguous,
    not found) and the health summary.
  - `websocket`: the session's decisions (hello, later messages, change
    events).
  - `collector`: the Gateway session as a state machine, the sidebar ranges
    and updates, snapshot validation and admin overrides, and the retry
    policy of the ingest client.
  - `storage`: the stored status, its freshness, the integers kept as text
    in the state table, and the JSON list columns of stored rows.
  - `scraper`: when the next scrape runs.
  - `json`: JSON text parsed by `serde_json` into a tree, and its lookups;
    `collector::frame` reads a Gateway frame from it.
  - `config`, `protocol`, `text`: settings, wire messages, string helpers.
- `app/` is the program around the library: HTTP and websocket transport,
  SQLite, the Gateway socket, JSON, environment and files.
- `tests/` runs the library on concrete values.
