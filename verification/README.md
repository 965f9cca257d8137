# superdeduper

The decisions of a duplicate finder, proved with Verus: which files make up the inventory of a
scan, and what the windows and panels around it show and do.

## Layout

- `src/inventory/` lists the files of a scan. `walk` and `walker` go through directories: the walk
  is a state machine that asks for a directory, a listing or an identity and is told the answer, so
  every answer of the disk is covered by its contract. `mft` reads a volume's record table, `warm`
  brings a kept table up to date from the change journal, `dir_enum` reads batched listings,
  `placeholder` tells files in the cloud from files on the disk.
- `src/gui/` holds the state of each widget, what a click does to it, and the texts it shows.
- `src/leaderboard/` and `src/channel.rs` hold the values that the account and submission widgets
  go by.
- `src/paths.rs`, `src/text.rs`, `src/numbers.rs`, `src/sizes.rs`, `src/sort.rs`, `src/time.rs` are
  the common ground: path components, text, rounding, sizes, stable orders and dates.
- `src/tables.rs` holds the sets and maps of `hashbrown`.
- `app/` draws with `egui`, reads the disk, and keeps what floating-point numbers decide.
- `tests/` runs the library on concrete values.

## What is proved, and what is trusted

Every function in `src/` has a contract over mathematical values: texts are sequences of
characters, lists are sequences, tables are maps. Public proof functions state what holds across
functions; for example, that no physical directory is entered twice, that dropping duplicate paths
loses none, that a warm start right after a full reading takes the same files, and that a snapshot
gives back what was written to it.

Believed without proof are the contracts of the functions marked `#[verifier::external_body]` in
`src/tables.rs`, `src/sizes.rs` and `src/inventory/dir_enum.rs`, and the specifications of
`String::push` in `src/text.rs` and of `char::from_u32` in `src/inventory/dir_enum.rs`. Each names
the function it speaks of.
