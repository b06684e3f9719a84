# husako

husako writes Kubernetes resources in TypeScript: entry files build
resources with a typed API, and `husako render` turns them into YAML.
This crate holds the rules and decisions of the `husako` tool, with their
contracts proved by Verus, and the command-line program around them.

## Layout

- `src/` — the verified library, one module per concern:
  - `config`, `edit`, `config_edit`, `entry`, `table`, `order`: the
    `husako.toml` model and its rules, the entries written into it and the
    edits of its text, entry aliases, named tables and name order.
  - `tsconfig`: `tsconfig.json` with the import paths of the generated
    types merged in.
  - `url_detect`, `add`: what `husako add` makes of a URL, a package or a
    path, as a sequence of steps answered by the caller.
  - `versions`, `version_check`: choosing versions among tags, registry
    indexes and ArtifactHub listings; version comparison.
  - `project`, `debug`, `workspace`, `plugin`, `lock_check`, `schema_source`:
    `list`, `outdated`, `update`, `info`, `debug`, `new`/`init`, `clean`,
    plugin installation, skipping up-to-date work, and schema sources.
  - `validate`, `quantity`, `render`, `jsonc`: validating rendered
    documents against OpenAPI schemas or by the fallback quantity rules,
    and reading tsconfig files with comments.
  - `select`, `search_select`, `text_input`, `name_version_select`: the
    interactive prompts as state machines, one step per key or answer,
    with list scrolling and navigation.
  - `progress`, `exit_status`, `bench`, `text`: progress text, exit codes,
    benchmark reports, and text helpers.
- `app/` — the `husako` program: arguments, files, network, terminal (the
  prompts' drawing and key reading in `app/prompt.rs`), and the steps that
  run on the engine crates (compiler, runtime, type declarations).
- `tests/` — tests of the library.
