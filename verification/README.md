# outl-tui

The terminal interface of an outliner: an outline editor with journals, tasks,
properties, reminders, a command palette and plugins.

- `src/` is the editor: what keys do, what happens to the page and what is
  drawn. All of it is verified with Verus. Each module states in its contracts
  what its functions do, and ends with the laws that relate them.
- `tests/` runs the editor on concrete values.
- `app/` is the terminal around it: it opens the screen, reads keys, and paints
  the panels that the editor lays out. A `Workspace` gives it the files, the
  operation log, the indices and the plugins.

## Modules

| Module | What it holds |
|---|---|
| `text`, `paths`, `dates`, `style` | texts, paths, days, styled text |
| `edit_buffer`, `outline`, `todo`, `autocomplete` | the edited text, the tree of blocks, tasks, completion |
| `theme`, `icons` | colours and glyphs |
| `state`, `effect`, `keys` | the state of the editor, and what passes in and out |
| `actions` | what the user can do |
| `input` | which key does what |
| `commands` | commands of the command line |
| `view` | what is drawn |
| `runtime`, `event_loop` | starting, and the loop |
