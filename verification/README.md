# gnil_app

The decision logic of the gnil file manager as a Verus library: menus and
their keyboard focus, the command bar, the keymap and its editor, sheets that
turn typed fields into filesystem operations, bulk renames, the file search,
the operation runner with its undo stack, folder watching, device scans, grid
previews, labels and paths. Every function in `src/` is verified against its
contract; public proof functions state the laws that hold across calls.

Layout:

- `src/` — the verified library, one module per concern (`lib.rs` lists them).
  Calls into std, chrono, regex, dirs and url stand behind small trusted
  wrappers whose doc comments say what is assumed of them.
- `app/` — the edges that touch the process, the environment and the
  filesystem, handing plain values to the library.
- `tests/` — scenarios run against the compiled library.
