# rss_reader

A terminal RSS/Atom feed reader whose logic is a library verified with Verus.

## Layout

- `src/` — the verified library:
  - `text` — character-level helpers: white-space collapsing, line splitting,
    wrapping, truncation, number and boolean parsing;
  - `config` — settings, their names, parsing and listing, file locations;
  - `feed` — articles, dates, stray-ampersand escaping, RSS and Atom reading;
  - `canonical` — finding a page's canonical link;
  - `page` — turning a fetched page into the text that is shown;
  - `subscription` — the subscription list: add, delete, sort, import;
  - `service` — combining the outcomes of fetching every feed;
  - `opml` — reading and writing OPML;
  - `screen`, `app` — the screen state and its transitions;
  - `keys` — what each key press does, per mode;
  - `refresh` — the refresh cycle and the effects of subscription changes;
  - `render`, `listing` — the lines the screens show;
  - `cli` — the command-line commands and their messages.
- `app/` — the program: argument parsing, files, network, terminal and
  clipboard, driving the library.
- `tests/` — tests of the library.

Each public function states its result in its contract; the `law_*` proof
functions state properties that hold across functions (sorting is a stable
permutation, escaping is idempotent, a deletion undoes an addition, and so
on).
