# liquide_widgets

Interactive widget behaviours for a CSS-styled UI toolkit, verified with Verus.

Each widget is a state machine: it takes keyboard input and the *hit* a host
resolved from the laid-out boxes (which row, segment, day cell or zone the
pointer is over), reports a `WidgetOutcome` (ignored, re-render, or a named
action with a payload), and renders a plain tree of elements, attributes,
classes and pseudo-states that a host turns into its DOM.

## Layout

- `src/` — the verified library. Every widget has a mathematical model (its
  `View`), spec functions for each transition, and executable methods whose
  contracts say exactly which model and outcome they produce. The render
  methods state the tree they build. Proof functions state the properties that
  span several calls (reversible moves, selections that stay valid, disabled
  items never selected, and so on).
  - `behavior`, `keys`, `node`, `text`, `calendar`, `index_set`: the shared vocabulary
    (outcomes, key codes, the render tree, text and date arithmetic, index
    sets).
  - One module per widget: `list`, `listbox`, `listview`, `menu`, `tabs`,
    `table`, `segmented`, `pagination`, `month_calendar`, `toggle`,
    `toggle_group`, `stepper`, `split_button`, `tag_input`, `masked_input`,
    `textarea`, `label`, `progress` (spinner), `rating`, `popover`,
    `reference`, plus the shared enums of the range slider and sparkline.
- `tests/` — executable tests of the library on concrete inputs.
- `app/` — host-side glue: screen geometry, pointer events resolved into the
  widgets' hit inputs, and the widgets whose state is floating point (slider,
  range slider, spin box, scroll area, progress bar, sparkline, line chart),
  the popover's measured placement, the text area's scroll offset and the
  numeric-aware table sort.

Ratings count their value in half-symbol units so that half stars are exact.
