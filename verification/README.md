# entre

`entre` creates new projects from language-specific TOML templates:
`entre rust ./my-project` or `entre rust cli_basic ./my-project`.
The target directory must be new or empty.

The decisions of the command are a verified library (`src/`):

- `cli` — what the command line asks for (`rust_arguments`, `run`);
- `templates` — template configuration, `validate_project`, `load_template`,
  `add_file_template`, `TemplateContext::from_target`, `license_text`,
  `validate_target` (the target must be new or empty);
- `sources` — which entries of a template's `files/` directory are loaded, and in which order;
- `path` — paths split into components as `std::path` does on Unix, `validate_selector`, `validate_file_path`;
- `render` — filling in `{{ name }}` placeholders;
- `merge` — combining default files with a template's own files;
- `langs::rust` — Rust checks, default files, `cargo add` arguments and the
  steps that create a project; `langs::python` — not supported yet;
- `text`, `error`, `assets` — text helpers, errors, default file contents.

`app/` is the command itself: argument parsing, reading templates from disk,
and performing the steps (file-system checks and writes, `cargo` calls).
