# modmill

A ProTracker 31-sample `.mod` parser and the playback decisions of an offline
WAV renderer, each function with a proved contract.

- `src/parser/`: the header (name, song length, restart byte, order table,
  `M.K.` tag), the 31 sample headers, and the pattern cell grid, each parsed
  from bytes with a contract over the file layout.
- `src/engine/`: the per-row and per-tick playback state machine (`Player`),
  the per-effect arithmetic under `src/engine/effects/` (arpeggio with exact
  equal-tempered rounding, slides, tone portamento, vibrato, volume, `D`/`B`
  decoding), and the extraction of sample PCM data.
- `app/`: the command-line program: file reading, JSON output, the
  floating-point resampling mixer and WAV writing.
