# tui-realm-stdlib (verified core)

Standard components for terminal user interfaces built with `tuirealm`:
a scrollable read-only table and a progress bar, plus the utilities they
share (span styles, the block around a component, text wrapping, cursor
position in UTF-8 text).

- `src/` is the verified library (Verus):
  - `props.rs`: colours, modifiers, borders, styles, styled text spans and
    the attribute record of a component with its setter and the law that
    setting one attribute leaves the others;
  - `utils.rs`: style rules, blocks, cursor position and the wrapping of
    spans into lines, with the laws of line filling; display widths come
    from `unicode-width` and wrapped lines from `textwrap`;
  - `components/table.rs`: the table's selection (`TableStates`), its
    commands, column layout and what it draws, with the laws of the
    selection and of the layout;
  - `components/progress_bar.rs`: the progress bar's attributes and what it
    draws besides the filled ratio.
- `app/` wraps the verified core as `tuirealm` components: attributes,
  commands and rendering, the progress ratio (a float), and conversions
  between `tuirealm` values and the core's plain values.
- `tests/` exercises the library.
