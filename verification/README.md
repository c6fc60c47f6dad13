# quickdiff

A git-first diff viewer whose core is proved correct with Verus.

- `src/` is the verified library: text buffers, line and word diffs and the
  laws they keep (`diff`, `diff_laws`), repository models and change lists,
  unified-diff and porcelain parsing, comments and their store, configuration
  layers, viewed state, fuzzy filtering, syntax highlighting and scopes,
  themes, and the viewer's state machine (`app_state`, `keys`, `navigation`)
  with the layout of every part of the screen (`pane`, `bars`, `sidebar`,
  `overlays`). Calls into `similar`, `nucleo-matcher` and `tree-sitter` stand
  behind small trusted wrappers whose contracts are stated where they are
  declared.
- `tests/` exercises the library on concrete inputs.
- `app/` is the program around it: argument handling, git access, files,
  the terminal loop and drawing.
