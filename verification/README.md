# wtxr

A command-line tool for managing git worktrees: add a worktree for a branch
(running hooks and copying configured files into it), list worktrees, remove
them (by path, by branch name, or by choosing in a terminal UI) and write a
configuration file.

## Layout

- `src/` — the library, verified with Verus: path arithmetic as `Path` does it
  on Unix, configuration merging and path resolution, parsing of
  `git worktree list --porcelain`, the add/remove/list use cases and their
  dry-run plans, the worktree table, and the chooser's state machine. Each
  public function states its result in `ensures`. The git, file and hook
  operations behind the use cases are traits whose predicates say which
  outcomes each call can have; the use cases' `execute` functions state their
  outcome through them (`carried_out` over `AddWorktree::steps` or
  `removal_steps`). The `law_*` proof functions state properties that relate
  several functions.
- `tests/` — tests of the library on concrete values.
- `app/` — the program around the library: the command line (clap), reading
  the TOML configuration, running `git` and hook commands, copying files, the
  spinner and the terminal UI.
