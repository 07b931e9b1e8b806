# submod

Manage a repository's git submodules from one declarative file, `submod.toml`: add,
change, check, initialize, update, sync, reset, rebuild and remove submodules so that
git's own metadata (`.gitmodules`, `.git/config`, the index and the checkouts) matches
what the file declares.

## Layout

- `src/` is the library, verified with Verus. It holds the configuration model and its
  loading rules, the planning of every command (what to check, which git commands to run
  and with which arguments, what to report), the readers of git's output, and the
  document edits that save `submod.toml` without disturbing its formatting. Every public
  function states its result in its contract; the laws that relate several functions are
  public proof functions.
  - `config`, `declarations`, `options`, `name_map`: the declarations and their settings.
  - `plan`, `batch`, `check`, `init`, `nuke`, `reset`, `add`, `edits`, `report`: what each
    command decides and prints.
  - `gitconfig`, `gitmodules`, `gitout`, `sync`, `gitargs`, `preserve`, `sparse`, `urls`,
    `status`, `paths`: git's settings, output and arguments.
  - `document`, `rendering`: the edits that save a configuration, applied to the loaded
    TOML document through `toml_edit`, the result checked by loading it, and the checks
    made before the file is replaced; `saving`: the law that saving a configuration over
    the document holding the loaded one leaves a document holding the saved one.
  - `generate`, `names`: generating a new configuration; names, paths and patterns from
    the command line, and text made safe to print.
- `app/` is the command-line program: argument parsing, the git commands and file I/O,
  around the library's decisions.
- `tests/` exercise the library.
