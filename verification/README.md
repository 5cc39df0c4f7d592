# chord

A runner of test flows. A task is a directory holding a flow (`flow.yml`)
and the CSV data of its stages; a job is a directory of tasks and jobs.

The library (`src/`) is verified with Verus:

- `value`, `text`, `pattern`: the JSON value model, text operations and
  identifier patterns.
- `flow`: the rules a flow document must follow, and what a valid flow
  gives for its stages and steps.
- `helper`: the template helpers (`num`, `str_sub`, `arr_get`, ...).
- `run`: identities of tasks, stages, cases and steps; rendering of texts,
  values and sections; the decisions taken between steps and cases; and
  the course of a task, from its reporter's start through its stages and
  rounds to the report of how it ended, as a state machine.
- `load`: the paths of a job's files, the text of CSV fields and the
  paging of CSV rows.
- `conf`, `job`, `point`, `error`: the command's configuration, the order
  of a job's entries, point templates and errors.

`app/` is the command: it reads files, drives the template engine, runs
actions and prints their outcomes, and asks the library at each decision.
