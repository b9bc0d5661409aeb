# md_viewer

A small read-only Markdown viewer for Linux. The library in `src/` holds
the viewer's logic with Verus contracts and proofs:

- `args`: the command line (`--help`, `--version`, `--`, one file), read
  as the bytes of each argument.
- `document`: which paths are Markdown files, the steps of loading a file
  (which files are refused, in what order, and with what message), how a read text becomes a `Document` (byte order
  mark, size in bytes, line count, image base URL), and `human_size`.
- `size`: the integer rounding behind `human_size`.
- `text`: character-level helpers (ASCII case folding,
  decimal digits, line counting).
- `paths`: paths as the bytes the system gives: their file names,
  extensions and parents, and the call into `url`, with its contract.
- `viewer`: the window's state (document, error, theme, ticked tasks)
  and the texts the window shows.

`app/` is the egui program around it: file I/O, the window, zoom and the
file dialog.
