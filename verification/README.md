# shell

A small interactive shell whose logic is verified with Verus.

- `src/` is the verified library: splitting a command line into words
  (`text`), parsing (`parser`), the builtins and commands (`commands`,
  `command_node`), resolving a command name against the builtins and the
  result of a search of the path (`resolver`), and what builtins write
  (`executor`), and the read-eval-print loop as a state machine that stops right after the
  first `exit` line (`repl`).
- `app/` is the program around it: reading lines, the environment, the file
  system and running programs.
- `tests/` runs the library on concrete command lines.
