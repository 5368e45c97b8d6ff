# lamp

The core of Lamp, a GTD task manager backed by plain org-mode files, as a
library verified with Verus, plus a small command-line front end.

- `src/` — the verified library:
  - `model/`: tasks, repeaters, habits, day plans, projects, links, the
    "when" views and daily-planning suggestions;
  - `org/`: the org headline grammar, the reader, the writer, the
    conversions, and the law that a written headline reads back;
  - `sync/`: iCalendar text (escaping, folding, VTODO and VEVENT reading and
    writing, repeating events) with the laws that a written VTODO and a
    written VEVENT read back, CalDAV/CardDAV/WebDAV answers, the sync
    engine's decisions and its laws (quiescence, convergence, no silent data
    loss, hash after merge, idempotent pull), the merge with its unions of
    work records (the logbook a sorted union), the day plan's budget
    stamping, content hash, contacts, and the prompts of the e-mail
    assistant;
  - `dates.rs`, `ids.rs`, `text.rs`, `config.rs`, `message.rs`.
- `tests/` — tests of the library on concrete values.
- `app/` — `lamp init | summary | check | sync`: reads the configuration and
  org files, talks HTTP to the CalDAV server (push, then pull; a full
  listing when the server has dropped the sync token), writes the result
  back to the org files and prints what the library decides.
