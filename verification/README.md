# prpr_client

The client side of a small WebGL and HTML drawing framework, verified with Verus.

- `src/` — the verified library:
  - `style.rs`: CSS keywords of border styles, alignments and cursors; colours
    (`rgba(..)` with channels held to 0..=255); gradients; filter functions.
  - `element.rs`: the inline-style property writes that each styling operation makes,
    a model of what a property holds after a sequence of writes, and laws over it
    (last write wins; the four-sided setters set every side).
  - `sample.rs` and `lib.rs`: what the sample systems draw on the 2D canvas and write to
    the HTML layer on each animation frame, and the start of the sample.
  - `decimal.rs`: decimal rendering of integers.
- `app/` — the browser side: applies the writes to DOM elements through `web-sys`,
  strokes canvas paths, and does the floating-point work (lengths in pixels, colour
  scaling, number formatting, animation) whose results the library takes as plain values.
- `tests/` — tests of the library on concrete values.
