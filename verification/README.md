# khora

A command-line driver for web-app QA over the Chrome DevTools Protocol:
launch Chrome, keep sessions across invocations, navigate, find and click
elements, type, wait, read console and network captures, take screenshots.

## Layout

- `src/` — the verified library (Verus). Everything that decides or computes:
  - `args` — the `WxH` size grammar and `30s`/`15m`/`2h` durations, with
    their round-trip laws;
  - `keys` — key-combo decoding into CDP key events (case-insensitive
    modifiers, named keys, Shift handling);
  - `session` — session records, identifiers, staleness, the automatic and
    manual reaping rules;
  - `page` — the scripts run in the page (every selector or text spliced in as
    a JSON string literal) and the interpretation of their replies, the
    polling rules for waits and navigations, and the choice of page to work
    on;
  - `process` — the walk over a process tree and the terminate-then-kill
    schedule;
  - `chrome` — where Chrome is looked for, in which order, and how it is
    launched;
  - `output`, `report`, `error` — every text the tool prints, and exit codes;
  - `json`, `text`, `element` — the values the rest works on.
- `app/` — the program around it: command-line parsing, the session files,
  process signals, the DevTools connection, JSON output, and the
  floating-point coordinates of boxes, points and pixel ratios.
- `tests/` — tests of the library on concrete values.
