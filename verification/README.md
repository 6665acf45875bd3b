# feedy

feedy is a terminal feed reader (RSS, Atom, JSON Feed) with local storage, read/star/hide
state, OPML import/export and a keyboard-driven interface. Its logic is a library verified
with Verus; a thin program around it does the terminal, network and file work.

## Layout

- `src/` — the verified library
  - `db.rs` — the feeds, entries and entry-state tables with the constraints of their SQLite
    schema, and every query and update the reader makes on them
  - `sync.rs` — parsing a fetched feed and storing its items; completing a refresh from an
    HTTP answer (including `304 Not Modified`)
  - `opml.rs`, `export.rs` — OPML import/export and the Markdown export of entries
  - `validation.rs` — feed URL validation
  - `tui.rs` — the reader's state machine: keys in, state and requests out
  - `screen.rs` — the text and layout of the screens
  - `order.rs`, `text.rs`, `time.rs`, `model.rs` — sorting, text helpers, times, shared types
  - `laws.rs` — properties that relate several operations (what one call undoes, what a read
    gives back of a write)
- `app/` — the program: command line, SQLite file, HTTP client, terminal drawing
- `tests/` — tests of the library

## CLI commands

```bash
feedy add <feed_url>
feedy remove <feed_url_or_feed_id>
feedy delete <feed_url_or_feed_id>
feedy refresh --all
feedy refresh --feed <id>
feedy import-opml <path>
feedy export-opml <path>
feedy export-news <path> [--feed <id>] [--include-hidden]
feedy doctor
```

`remove` disables a feed. `delete` removes it and its entries from the database.
