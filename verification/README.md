# transcription_history

The rules behind a transcription history store, verified with Verus.

- `src/text.rs`: Unicode whitespace, ASCII case, whitespace normalisation of
  correction texts and the key that makes a heard text unique.
- `src/corrections.rs`: correction rules, their validation, preparation for
  insert and update, and how enabled rules rewrite a transcription at word
  boundaries, ignoring ASCII case, and the rule table's invariant with the
  laws that each operation keeps it.
- `src/history.rs`: history entries, titles, paging and retention clean-up.
- `src/migration.rs`: taking over migration tracking from an older store.
- `src/clock.rs`: the current time (system clock read through chrono's
  calendar range, without panicking) and the local calendar text of a title.
- `app/`: the SQLite store (`rusqlite`, `rusqlite_migration`), the recordings
  directory and serialisable copies of the library's types.
