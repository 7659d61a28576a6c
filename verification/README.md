# chessy

A chess board for playing against and analysing with a UCI engine (Stockfish),
with PGN import and export and move-history navigation.

- `src/` is the verified library: the game record and its navigation, PGN
  writing and the builders that turn a PGN reader's events into games, the
  board's rules for clicks and drags, what the board and the analysis panel
  show, the UCI commands sent to the engine and the parsing of its output, and
  the session logic that decides when the engine analyses or moves. The rules
  of chess come from `shakmaty`, through the small trusted functions in
  `src/rules.rs`.
- `app/` is the desktop program around it: the egui window, the engine
  process and its threads, files, the clipboard, settings on disk and sound.
- `tests/` exercises the library on concrete games and engine output.
