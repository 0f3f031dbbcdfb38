# kapollo

A split-pad terminal REPL around the user's real shell: a scrolling
transcript of commands and their output on top, an editable input pad below,
slash commands, block-aware copy, and a status bar.

## Layout

- `src/` — the library, verified with Verus. `app` holds the interactive
  core: every key press, mouse event and burst of shell output becomes a new
  state plus a list of effects for the event loop to carry out. The other
  modules hold the input pad and history (`input`), key bindings (`action`),
  configuration (`config`), output parsing and block capture (`output`,
  `session`), selection geometry (`selection`), slash commands (`slash`),
  shell integration (`pty`), clipboard framing (`clipboard`), terminal byte
  encodings (`term`) and the text of the panes (`ui`).
- `tests/` — tests of the library.
- `app/` — the program around it: argument handling, logging, configuration
  files, the terminal, the shell on a PTY, the emulated screen and the event
  loop.
