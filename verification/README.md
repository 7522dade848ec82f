# Click Clack Farm

An idle farming game for the desktop. Plants grow while the computer is in active use;
key presses and mouse clicks feed the animals. All economic values are exact natural
numbers of unbounded size.

## Layout

- `src/` — the game as a Verus library: every rule stated in `requires`/`ensures` and
  proved.
  - `bignat`, `amount`: unbounded naturals (arithmetic by `num-bigint`) and the amounts
    built on them; decimal text and its parsing.
  - `ids`, `keyed`, `idmap`, `order`: species ids and id-ordered maps and sets.
  - `config`, `content`: the catalog of species and the bundled five-tier catalog.
  - `state`, `error`, `event`, `message`: the save state, its validity, errors and the
    messages a player reads.
  - `production`, `input`, `pricing`, `budget`, `purchase`, `sale`: production over
    productive time, feeding from inputs, plant prices, purchases and sales.
  - `activity`, `probe`: when time counts as productive, and the input probe's
    filtering, numbering and counting of effective inputs.
  - `stats`: daily statistics, split at local midnight.
  - `engine`, `backend`, `snapshot`, `save`: the running game, its settlement of input
    counts and productive time, the displayed snapshot, and the save format.
- `tests/` — tests of the library on concrete values.
- `app/` — the desktop shell (Tauri): window and menus, platform input and activity
  notifications, the save file on disk and the local clock. It hands the library plain
  values and shows what comes back.
