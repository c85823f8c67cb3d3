# repo

A tool for managing several Git repositories of one workarea at once: a
`.repo.json` in the workarea root names the Git servers, a `projects.json`
lists the projects, and `repo init`, `repo status`, `repo fetch`,
`repo update`, `repo project ...` and `repo server ...` act on all of them.

- `src/` is the library, verified with Verus: the configuration model and
  its lookups, the search for the workarea root, how git's output becomes a
  project status, the decisions of each command (adding, removing and
  editing servers and projects, `.gitignore` entries, what `init` clones,
  the order of `update`), the text the tool prints, and the properties that
  hold across these operations (`src/laws.rs`).
- `app/` is the program around it: command-line parsing, reading and writing
  the JSON files, prompting, and running git.
- `tests/` exercises the library on concrete values.
