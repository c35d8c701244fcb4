# supertools

The verified core of a desktop toolbox for PNG compression, SVG icon sets and
PDF tools.

- `src/` is the library, verified with Verus: PNG inspection, the PDF writer,
  `.ico`/`.icns` containers, icon plans for each platform, compression job
  rules (encoders per format, output naming, conflicts, tallies), PDF tool
  command lines and parsers, and the job slot of the application state.
- `tests/` runs the library on concrete values.
- `app/` is the desktop shell around it: Tauri commands, file and process
  I/O, and floating-point rendering with `resvg`.

A job's output directories are kept in a strictly sorted `Vec<String>`
rather than a `BTreeSet<String>`: vstd specifies `BTreeSet` only for key
types whose ordering is known to obey its laws, and it establishes that for
no string type, so nothing about such a set could be proved.
