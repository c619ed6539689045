# jira

A command line client for JIRA: list and filter issues, browse the active
sprint in a terminal screen, move issues through their workflow, assign
them, read and add comments, and extend the screens with Lua key bindings,
columns and plugins.

## Layout

- `src/` is the library, written in Verus. Every function there carries a
  contract that Verus proves: the configuration document and its aliases,
  JQL building, reading issues and sprints from Jira's answers, the sprint
  cache, the services that talk to Jira (through the `JiraApi` trait), the
  comment and mention handling, and the state machines of the terminal
  screens (sprint view, issue list, filter editor, detail view).
- `tests/` holds the tests of the library.
- `app/` is the program around it: the command line (clap), HTTPS requests
  (through `curl`), the configuration file, the Lua runtime (mlua) and the
  drawing of the screens (ratatui, crossterm).
