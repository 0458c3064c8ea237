# hypertask

A task manager's engine, written in Verus and verified.

- `src/` is the library. Each public function states what it returns in its
  `ensures`, over the spec functions and views of its module; `src/laws.rs`
  states and proves properties that relate several functions (conflict
  resolution converges, tags added are selected, operator words read back,
  and more).
- `tests/` runs the library on concrete values.
- `app/` is the command-line client around the library: it reads the
  configuration and the task files, runs the score and filter programs (whose
  arithmetic is on floating-point numbers), writes the changed tasks, runs the
  hooks and prints the table.

Calls into other crates (chrono for the calendar and the clock, regex for the
date shortcuts, rand for identifiers and secrets, blake2 for task hashes,
shellexpand for `~` in paths) go through small trusted functions whose
contracts say what those crates' sources and documentation promise.

Collections are held in `Vec`s with invariants rather than in `HashMap` and
`HashSet`: the tasks of the engine in a `Vec` whose identifiers are pairwise
distinct (`index_by_id` keeps the last task loaded for each identifier, as
inserting into a map does), the blocked-by relation in a second `Vec`, and a
task's tags in a `Vec` without repetition. The specifications that come with
Verus describe `HashMap` and `HashSet` keyed by integers; keyed by strings, as
these collections are, their contents are not described, so nothing could be
proved of them.
