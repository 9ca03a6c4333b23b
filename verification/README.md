# RataRSS

A three-pane terminal RSS reader (sidebar, article list, reader) in the style
of NetNewsWire, with OPML import and export, themes, and a local SQLite cache.

## Layout

- `src/` is the library, verified with Verus. It holds the reader's logic
  with its contracts:
  - `app/` — the interface state and every decision taken on it: key and
    mouse handling, navigation, popups, settings, the sidebar's rows and the
    feed finder. Work that needs the outside world (database, network,
    clipboard, browser, disk) is returned as a list of `Effect`s.
  - `reader.rs`, `hits.rs` — laying an article's HTML out as styled lines,
    word wrapping, and where the links are drawn.
  - `opml.rs` — reading and writing OPML, with the proof that the XML
    events an export writes, read back, give the feeds it was made from
    (that quick-xml reads its own output back as those events is not
    proved).
  - `fetcher.rs` — turning a downloaded document into a feed and its
    articles, and feed discovery in web pages.
  - `ui/` — what the panes and popups show: pane geometry, the sidebar's
    rows, the article cards, the settings and key-binding rows.
  - `fuzzy.rs`, `config.rs`, `storage.rs`, `theme.rs`, `model.rs`,
    `text.rs`, `pattern.rs`, `sample_data.rs`.
- `app/` is the program around it: command line, terminal, drawing with
  ratatui, SQLite, HTTP, the configuration file and the colour themes.
- `tests/` exercises the library from outside.
