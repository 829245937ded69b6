# sitmon-cli

A terminal situation monitor: a feed of incidents and aircraft, a fleet
column and a column of world leaders, with keyboard navigation, search,
severity switches, a layer panel and a scrolling market ticker.

The library in `src/` is written in Verus and verified:

- `model` – severities, zoom and contrast modes, feed objects, ships and
  leaders, and the timestamp arithmetic (`parse_timestamp`).
- `text` – the string helpers the rest builds on (words, case-insensitive
  matching, decimal digits, UTF-8 lengths).
- `mts_client`, `data` – turning service and fixture records into feed
  objects, and assembling snapshots.
- `order` – the stable insertion sort that orders the feed and the fleet.
- `app` – the application state machine: what every key does
  (`App::handle_key`), the periodic and manual refresh and when the next
  one is due (`RefreshSchedule`), the search.
- `ui`, `panels`, `feed_view` – layout arithmetic and the lines of every
  panel, as text with a look (`Piece`).
- `market_ticker` – the ticker's scrolling clock and the visible window of
  a scrolling line.

`app/` is the program around it: terminal input and drawing (crossterm,
ratatui), HTTP fetches (reqwest), JSON (serde), the clock, threads, and the
floating-point work (coordinates, prices).

Run with `SITMON_USE_FIXTURES=1` to read `tests/fixtures/*.json` instead of
the live service.
