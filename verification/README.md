# cellwidth

Terminal display width that gets emoji, CJK and ANSI colour right, with every
function proved against its contract.

`"👨‍👩‍👧‍👦".len()` is 25 and `"👨‍👩‍👧‍👦".chars().count()` is 7, but a terminal draws it in
two columns. This library measures text the way a terminal draws it: grapheme
clusters per UAX #29, East Asian Width, variation selectors, and ANSI escape
sequences that take no room; and it cuts, pads, wraps and lays out tables on
that basis.

## Layout

* `src/` is the library. Each function's contract states its result over the
  characters of its input, and the code is proved to meet it.
  * `measure`, `units`: the width of a text under a `Width` policy, and
    cutting it to a budget.
  * `grapheme`, `linebreak`, `ansi`: segmentation into grapheme clusters
    (UAX #29), line break opportunities (UAX #14) and escape sequences.
  * `fit`: truncating with a marker, padding, fitting a cell, wrapping.
  * `table`: table layout and rendering.
  * `append`, `concat`, `shift`, `table_width`, `wrap_keep`, `wrap_fit`: the
    proofs that a cell is exactly as wide as asked, that every line of a table
    is as wide as every other, that wrapping loses no visible character, and
    that wrapped lines fit.
  * `tables`, `tables_data`: the Unicode character properties.
  * `compat`: `unicode-width`/`unicode-segmentation`-style traits.
  * `probe`, `report`: the probe cases' types, and reading back what a
    terminal reports.
* `tests/`: the test suite.
* `app/`: the programs around the library (terminal probing tools, the C-ABI
  shim of the browser demo). They do input and output only.
* `extras/gen_tables.py`: refreshes `src/tables_data.rs` from the Unicode
  Character Database.

## Laws

Besides each function's own contract, the library proves properties that span
functions, among them:

* `truncate` keeps the longest prefix that fits, keeps a text that fits
  whole, and never cuts inside a cluster or an escape sequence.
* Grapheme clusters and escape-sequence pieces put back together give the
  text again; trimming a dangling escape drops no visible text.
* A cut with a marker fits its budget, whatever the marker holds but a tab
  or an escape sequence left open: a zero-width space keeps the marker from
  merging with the end of the cut.
* `cell` is exactly as wide as asked, whatever the text: a zero-width space
  keeps the padding from joining a Prepend character at its end.
* Text already as wide as asked is not padded; padding always reaches at
  least the width asked for, exactly so on the right, and on the left or both
  sides for text without tabs (a tab moved right by the padding can change
  its width, and the padding on the right makes up what it lost); a
  zero-width space keeps padding from joining the text's first or last
  cluster.
* No character is wider than two columns, except a tab, which takes at most a
  tab stop.
* Without escapes or tabs, the width of a text is the sum of the widths of
  its grapheme clusters.
* Wrapping to a width of at least one always gives a line to print, and text
  of nothing but spaces wraps to a single empty line.
* Wrapping text without escape sequences keeps every character that is not
  white space, in order.
* Wrapped lines are at most the width asked for, or a single cluster too wide
  for any line, for text without escape sequences where a cluster boundary
  falls at every break opportunity and no space follows a Prepend character.
* Every rule and every row line of a table is as wide as every other, under
  any policy and border (box drawing gives way to ASCII where ambiguous
  characters are wide), whatever marks, Prepend characters or wide
  characters the cells hold: a zero-width space keeps a cell's line from
  merging with the padding beside it, and the tabs and line feeds a line can
  hold only inside an escape sequence are left out of the layout. When a
  width limit leaves room for every column's floor, no line exceeds it.
* A width limit narrows the widest flexible columns first: every column
  narrowed below its natural width is within one column of every other
  flexible column.

## Bounds

Measuring, cutting, padding and fitting a cell ask only that the width they
measure fits in a `usize`; a huge tab stop costs nothing where there is no
tab. Wrapping asks that the text's cap fits: a tab stop for each tab and two
columns for every other character. Table layout still asks for the coarser
bound `room`: the number of characters times the widest a character can be.
