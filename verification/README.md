# awl — the editor chrome's verified rules

`awl` holds the decisions the editor's renderer makes about its chrome, written
in Verus and proved against their contracts:

- `window` — candidate-row windows, the fixed-width text field's view, the
  list's edge cues and the scene plan's windowed lines.
- `outline`, `outline_plan` — the margin outline's heading rules (top level,
  ancestors, group gaps, depth reveal, fold marker) and the rows one frame
  shows: the follow window that keeps the current heading in view and shrinks
  until rows and gaps fit the band.
- `gutter` — the bottom-left identity block: its lines, the active file's
  plate, pointer enrolment, the drag hairline and context targets.
- `pipeline` — the renderer state these rules read, and the reports built
  from it (HUD, peek, streaks, footer, document text).
- `frost` — which list compositions need a frosted footprint, and the capped
  capture size.
- `dropdown` — a menu dropdown's joined label and chord columns, the byte
  ranges of its disabled items, and the ink spans a column splits into.
- `hint`, `hud`, `bench`, `typing`, `snapshot`, `text` — the foot-hint line,
  card figures, benchmark witnesses and counters, pixel differences, and the
  string helpers the rest share.

Each module states its laws as public proof functions (`law_*`).

`app/` is the unverified glue: the environment switch for the depth reveal,
the frost suppression switch, image read-back conversion, and the
floating-point pixel geometry that turns the verified decisions into rects.

`tests/` runs the library on concrete values.
