# vcs

A small version-control tool: `init`, `status`, `log`, `commit`, `new_branch`,
`jump` (to a branch or a commit) and `merge` (of a branch into master).

- `src/` is the verified library. It holds the repository's metadata
  (`info`, `repository`), the rules of every command as functions from the
  metadata and the observed directory differences to the new metadata
  (`commands`), the comparison of snapshots and the detection of merge
  conflicts (`snapshot`), the texts the tool prints (`report`, `text`), and
  the properties the commands keep (`laws`). The current time comes from
  `chrono` through one trusted function (`clock`).
- `app/` is the command-line program around it: argument parsing with `clap`,
  the JSON metadata files with `serde`, and all work on the file system.
- `tests/` runs the library on concrete repositories.
