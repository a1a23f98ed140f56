# website

The builder of a personal website: it checks out the repositories named in
`submodules.toml` at pinned commits, builds the blog with hugo, copies the
reveal.js slides of each talk listed in `config.toml`, and renders the
static root files with Tera into `dist`.

- `src/` is the library, verified with Verus: the submodule configuration
  format (`submodule`), the protocol that brings a checkout to its commit
  (`sync`, one checkout and a whole run), the directory walk that copies a tree (`paths`), the templating
  decision for root files (`render`) and the Tera engine that holds one
  template (`template`), what a finished command yields
  (`process`), the talks and the blog configuration rewrite (`site`), the
  subcommands and the rebuild debouncing (`cli`), and character-level
  helpers (`text`).
- `app/` is the program around it: argument handling, file system and
  process I/O, the file watcher and the web server, logging, and the serde
  copies of the configuration types.
- `tests/` exercises the library on concrete values.
