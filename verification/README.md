# pixterm

A terminal pixel-art editor. The library (`src/`) holds the editor's logic
with Verus contracts and proofs; the binary (`app/`) owns the terminal, the
event loop and the files.

## Library modules

- `canvas`: the unbounded sparse canvas (a hash map of painted pixels), its
  map model, and the tight bounding box.
- `history`: undo/redo stacks of operation groups; replaying and rolling back
  a group on a canvas, with the laws that an undo reverses what it takes back
  and that undo and redo are inverse.
- `color`: `#RRGGBB` reading and writing, the default palette; reading back
  what was written gives the colour, in either case.
- `text`: trimming, ASCII lower case, unsigned number parsing and decimal
  text, stated over characters.
- `command`: the command language typed after `:` (help, save, load, export,
  import, quit, paint, undo, redo, color, clear, `#RRGGBB`); the command word
  matches in any case.
- `app`: the editor state, painting, strokes, undo/redo, commands, coordinate
  mapping and scrolling. Saves and loads are returned as `FileAction`s for the
  binary to perform, and so are PNG exports and imports. A canvas pixel
  covers `2 * zoom` columns and `zoom` rows both on screen and for the
  mouse. Every operation keeps the history consistent with the
  canvas, so that an undo brings back the canvas as it was before the most
  recent operation. This holds as long as no stroke is left unfinished: an
  edit, undo, redo, clear or new button press while a stroke is still in
  progress breaks it.
- `input`: keyboard and mouse events and their effect on the state; the
  same consistency law at the level of events, a whole mouse stroke as one
  undoable operation that paints exactly the pixels under it, and a view
  that always stays renderable.
- `file`: the saved grid of a canvas and reading it back, the gzip framing of
  `.ptd` files (flate2) and PNG images (png); reading back what was written
  gives the canvas moved to its bounding box's origin.
- `render`: the colour runs of each screen row and the cursor frame cells.
- `ui`: the display mode enum and the placement of the help panel.

## Binary

`app/main.rs` sets up the terminal (crossterm), `app/runner.rs` runs the loop,
`app/file.rs` reads and writes files and does the JSON (serde_json), and
`app/renderer.rs` / `app/ui.rs` draw with crossterm.
