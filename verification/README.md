# prm

A personal relationship manager: people, the activities done with them,
reminders and notes, kept in a SQLite file and edited from the command line.

- `src/` is the library, verified with Verus: dates, the editor templates and
  what the edited text reads as, the rules for adding and changing entities,
  the decisions behind storing them (stale links, SQL placeholder lists), the
  calendar of birthdays and reminders, and `properties.rs`, which states what
  holds across these functions (round trips between what is shown and what is
  read back, what the filters keep).
- `app/` is the `prm` command: argument parsing, the SQLite statements, the
  external editor and the iCalendar export.
- `tests/` runs the library on concrete values.
