# ldraw

A library for LDraw models (the file format of the LDraw.org parts
library), verified with Verus.

- `src/text.rs`: splitting lines into fields and other character-level
  operations.
- `src/types.rs`, `src/file.rs`: colors, geometry and statements of LDraw
  files. Real numbers are kept as the text of their field.
- `src/load/`: parsing of lines (`base`: integers, colors, field checks;
  `meta`: meta statements; `primitives`: lines, triangles, quadrilaterals)
  and loading of whole files from their lines.
- `src/multi_file.rs`: files made of several parts (`0 FILE` ... `0 NOFILE`).
- `src/loader.rs`: what a walk over a model does with each statement:
  color declarations, color resolution, subfile references; and where the
  files of a model are looked for.
- `app/`: the program that dumps a file, loading files from disk, the
  floating-point geometry and the visitor over a model.

Each public function states what it returns in its contract; the laws of
colors, parts and loading are public proof functions beside them.
