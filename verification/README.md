# marion-supervisor

The verified core of a supervisor for a tree of agent processes: which nodes exist and what is told
of them, who may start one, who may type into its pane, when the supervisor may exit, and what is on
disk before anything irreversible happens.

- `src/` holds the decisions, each with its contract and, where a promise spans several of them, a
  law (`law_..`) proved over the same models.
- `tests/` runs the decisions on concrete trees, journals and panes.
- `app/` is the plumbing around them: locks, threads, journal files, entropy and the traits through
  which a pty, a launcher or a process table is reached.

Two things are trusted rather than proved: the text that the standard library's `Debug` gives a list
of ids (`text::debug_list_text`), and the text that `serde_json` gives a string
(`attach::json_string_text`).
