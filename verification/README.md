# retro

A terminal board for running retrospectives: participants write notes
(tagged happy, sad or neutral by the smiley they contain), vote for them, and
select rows from a small command line. Notes live in a Firestore room.

## Layout

- `src/` — the verified library (Verus).
  - `app/` — the board: modes, notes and their stored form, sentiments, and
    the state the terminal holds. Requests for the network side wait in the
    state until `take_actions` hands them over.
  - `handlers/`, `events/` — what each key press does; the handlers return
    the edit they want applied to a text box.
  - `state.rs`, `state/`, `note.rs`, `mode.rs` — the board kinds that keep
    notes by id.
  - `network/` — the room's paths and what the board makes of its documents.
  - `ui/` — labels, help texts and colours.
  - `text.rs`, `store.rs`, `string_set.rs` — text rules, a keyed store and a
    set of strings, with their proofs.
- `app/` — the program: command line, terminal, widgets and Firestore calls.
- `tests/` — tests of the library.

## Why the library keeps its own map and set

Notes are kept by their `String` id and votes and participants are sets of
`String`s. vstd's specifications of `HashMap` and `HashSet` only hold for key
types that obey its key model, and `String` is not among the types for which
that is established, so nothing could be proved of lookups by id. vstd's
`StringHashMap`/`StringHashSet` cover lookups, but give no way to walk the
values, which listing the notes and counting sentiments need. The library
therefore keeps them in `KeyedStore` and `StringSet`: a `Vec` with the type
invariant that no key (or text) occurs twice, viewed as a `Map` or a `Set`.
