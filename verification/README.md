# ptracker

A CLI tool for tracking freelance projects, file activity and hours. Projects
live under `~/.ptracker`: a registry `projects.json`, and for each project a
directory `projects/{slug}/` with `project.json`, `sessions/{date}.json` and
`logs/{date}.log`.

Layout:

- `src/` is the library, verified with Verus: slugs (`slug.rs`), the storage
  layout (`storage.rs`), the records (`types.rs`), the registry and project
  operations (`registry.rs`) and the decisions of a watch session
  (`watch.rs`: mapping watcher events, pairing the two halves of a rename,
  dropping repeats within half a second, counting what a session recorded).
- `app/` is the command-line program: argument parsing, reading and writing
  the JSON files, tables, the file-system watcher, Ctrl+C handling, and the
  arithmetic on hours, which the library carries as bit patterns.
- `tests/` runs the library on concrete values.
