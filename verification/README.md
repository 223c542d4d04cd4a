# macroman

A terminal macro manager: a list of keyboard macros (named sequences of key
presses, key releases and waits, each with a trigger key combination and a
run style), an editor for them, and an executor that plays them.

- `src/` is the verified library.
  - `text.rs`: trimming, splitting, joining and decimal numbers over `Seq<char>`.
  - `model.rs`: key combinations, styles, steps and macros, with their text forms.
  - `app.rs`: the application state and its operations.
  - `input.rs`: what each key does to the state.
  - `ids.rs`: sets of identifiers held in a `Vec<String>` without duplicates.
  - `executor.rs`: which runs to start and stop, and what a run does next.
  - `screen.rs`: the texts the screen shows.
- `app/` is the terminal program: drawing with ratatui, reading keys with
  crossterm, the executor's threads and channels with tokio, and the key
  drivers.
- `tests/` runs the library on concrete values.
