# climax

A verified library for interactive command-line programs: widgets that
react to decoded terminal events, typed prompts over them, a terminal input
decoder, the decisions of a live session driver, an application facade with
output and status policy, and the `bang` configuration command.

Every function under `src/` is checked by Verus against its `requires` and
`ensures`. Calls into other crates and into the parts of `std` that Verus
does not model sit behind small trusted wrappers, each with a doc comment
saying what it claims.

Layout:

- `src/bang_core/`: values, events, views, the widget trait and the widgets
  (text input, select, multi-select, search, review, date picker, form), the
  action layer and sessions.
- `src/bang/`: prompt errors, configurations, typed prompts, interactions and
  event replay.
- `src/terminal/`: the byte decoder and its chunking laws, screen modes,
  signals, sizes, the event source's polling decisions and the live
  driver's decisions.
- `src/climax/`: the application facade: errors, terminal policy, output,
  status lines and the run lifecycle.
- `src/cli/`: the `bang` command: arguments, configuration files and running
  a prompt from them.
- `src/attr.rs`: the options an argument-parser attribute sets (`pound(...)`
  metas) and doc-comment text, read from `venial` attributes.
- `app/`: the `bang` executable, reading files and arguments and printing
  results.
- `tests/`: tests run against the compiled library.
