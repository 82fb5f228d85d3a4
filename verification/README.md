# yomichan_mobile

The logic behind a mobile Yomichan dictionary app, written in Verus with
contracts and proofs:

- `screen`: the screens, their titles, and deep links (`gpui://video_player`).
- `router`: the current screen, the back-button history, and what the frame
  around a screen shows (system bars, tab bar, content area).
- `search`: cleaning a query, following the results, the cache of rendered
  views and their keys.
- `anki_settings`: deck and model selection and the mapping of note fields,
  with the proof that a saved mapping loads back unchanged.
- `anki`: pushing drafts to Anki and reporting the outcome.
- `dictionaries`, `settings`: enabling dictionaries, lookup languages,
  profiles, and keyboard input.
- `text`: whitespace trimming and ASCII case folding over characters.

`app/` holds the program around it: the dictionary store (`yomichan_rs`), the
pending-notes SQLite table (`rusqlite`), and the floating-point display values.
