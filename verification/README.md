# graftfs

A symlink farm manager in the spirit of GNU stow: it links the files of
packages into a target directory (`stow`), removes those links (`delete`),
does both in turn (`restow`) and lists them (`list`). Ignore and override
patterns are regular expressions; a dot-file prefix such as `dot-` turns
`dot-bashrc` into `.bashrc`.

The library under `src/` is verified with Verus:

- `command` walks the packages and decides what to link, create, remove or
  show. It works through the `CommandOperation` trait, so it is proved for
  every answer the file system may give; `Recorder` keeps the list of changes
  asked for, over which the laws of `Command::execute` are stated, and the
  list of every question and change put to the file system with its answer.
  Over that list `execute` states the whole walk: each package, and each
  readable entry of each listed directory in turn, is stowed, unstowed or
  listed as the per-entry predicates say, down to the subdirectories, and the
  first failure is the result.
- `command_builder`, `stow_data` and `command_error` build commands and check
  their required parts.
- `paths` reads paths as `std::path` does on Unix (components, `join`,
  `parent`, `strip_prefix`).
- `regex` compiles patterns with the `grep` crate (Rust or PCRE2 engine).
- `config`, `app_configuration` and `ignore_file` hold the configuration file,
  place its paths, and read the pattern files.
- `logging`, `color`, `color_support`, `strategy`, `shell` and `dist` hold the
  remaining settings, output lines and names.

`app/` is the `graft` program: command-line parsing, TOML configuration files,
`tracing` setup, terminal colors, and the real (or simulated) file system.
