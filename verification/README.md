# windows_board

A board of cards in columns for the Herdr terminal workspace manager, on
Windows first. Moving a card into a dispatch-enabled column starts (or reuses)
an agent pane and prompts the agent with the card.

- `src/` is the library, verified with Verus: the board model and its
  ordering (`state`, `sorting`), saving with optimistic concurrency
  (`persist`), the Herdr command line's arguments and failure messages
  (`herdr`), the dispatch of a moved card as a state machine (`dispatch`), the
  subcommands' decisions (`commands`), the terminal UI's input handling
  (`tui`) and what its screen shows (`view`), and properties that span
  operations (`laws`).
- `app/` is the `windows-board` program: argument parsing, the state file,
  the `herdr` subprocesses and their JSON replies, and the terminal drawing.
  It performs what the library decides.
- `tests/` runs the library on concrete boards.
