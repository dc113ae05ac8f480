# kmgr

A command-line Minecraft mod manager: it searches Modrinth and SourceForge,
installs mods with their required dependencies, keeps `kmgr.toml` (settings and
profiles) and `kmgr.lock` (installed mods) in step with the mods folder, checks
downloads against their SHA-1 or SHA-512 hashes, switches profiles by renaming
mod files to and from `.disabled`, and prunes dependencies that nothing needs.

## Layout

- `src/` is the library, verified with Verus. It holds the workspace state and
  its operations (install plans, removal, pruning, profiles and switching, fuzzy
  lookup), the dependency resolution state machines for Modrinth, the platform
  addresses and the reading of the SourceForge search page, the retry decisions for HTTP requests, hash checking, and the
  validation of setup answers. Each public function states what it returns or
  changes; `src/laws.rs` states the properties that relate several operations.
- `app/` is the program around it: argument parsing, the TOML files, HTTP,
  progress bars, prompts and file renames. It asks the library
  what to do and carries it out.
- `tests/` runs the library on concrete values.
