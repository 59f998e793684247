# multiverse

A command line for managing narrative worlds (stories, episodes,
characters, locations, races, factions and events), with its decisions
verified by Verus.

- `src/` is the verified library: the `--set KEY=value` rules of every
  entity, the status names and how they are stored, the plans of each
  subcommand, story types and their metadata, the workspace configuration,
  the git status report, the SQL guard of `query`, the order in which SQL
  scripts run, and the rules for setting up a world directory.
- `app/` is the program around it: argument parsing, the SQLite database,
  TOML files, directories and git.
- `tests/` runs the library on concrete values.
