# relic

The verified core of a local-first retro game frontend, written in Verus.

* `src/` — the library. Every function is verified against its contract:
  launch-argument templates, smart-collection queries, Android intent
  templates, the platform registry, schema-migration planning, the
  incremental scan planner, content hashing, DAT and `gamelist.xml`
  parsing and export, media discovery tiers, the RetroAchievements
  client's pacing/backoff/circuit-breaker state machine, scraper matching
  and the ScreenScraper request/response rules, theme validation and
  resolution, emulator detection and the records of the mobile bindings.
  Calls into `quick-xml`, `toml`, `serde_json`, `crc32fast`, `md-5`,
  `sha2` and `image` sit behind small trusted wrappers whose contracts say what the
  crates document.
* `tests/` — tests of the library, run against the real crates.
* `app/` — the `relic` command-line program: SQLite storage, filesystem
  walks, file and zip reading, HTTP, and `serde` copies of the library types
  for TOML definition files.
