# c14

Computes the version of a repository from its conventional commits.

- `src/` is the verified library: semantic versions and their bumps
  (`semver`), decimal numerals (`decimal`), the version patterns (`pattern`),
  commits read as conventional commits (`commit`), the version a history leads
  to (`version`), the `increment` command's result (`increment`), text lines
  (`text`), and release counting from version tags (`release`).
- `app/` is the command line program: argument handling, git access through
  `git2`, YAML output and printing.
- `tests/` runs the library on concrete values.
