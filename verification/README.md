# feluda

A dependency license checker: it finds the manifests of Rust, Node.js, Go,
Python, R, C, C++ and .NET projects, resolves their dependencies, classifies each
dependency's license (restrictive, ignored, compatible with the project's
license, OSI status) and reports the result as tables, JSON, YAML, CI output
(GitHub Actions, Jenkins JUnit XML), or NOTICE and THIRD_PARTY_LICENSES files.

## Layout

- `src/` is the library, verified with Verus. Public functions state their
  results in their `ensures` over spec functions and views (the shared
  license cache excepted: its slot may be changed by any clone on any
  thread); the `law_*`
  proof functions state properties that span several calls (report filters,
  menu navigation, dependency walks, detection state machines, strict mode).
  - `licenses`, `config`, `cache`: license classification, configuration
    validation and ignore rules, cache freshness; `license_ids`: laws of
    license identifiers (normalizing is idempotent).
  - `report`, `generate`: what a report shows and its text forms; the NOTICE
    and THIRD_PARTY_LICENSES files and the generation menu.
  - `languages/*`: manifest and lockfile parsers, tool-output parsers, and the
    state machines that decide which dependency source to consult next.
  - `walk`: breadth-first transitive dependency resolution with a depth limit.
  - `sources`: where a dependency's license text is looked up.
  - `documents`, `pattern`, `clock`: the calls into serde_json, toml, regex
    and chrono, with their contracts.
  - `text`, `lists`, `order`: character-sequence and list helpers with their
    lemmas.
- `app/` is the command-line program: argument parsing, file and network I/O,
  running package managers, terminal output. It drives the library's state
  machines and hands it plain values; JSON that is fetched or printed by a
  tool (license lists, npm/pnpm/yarn listings, lockfiles) reaches the
  library as text, and the library reads it.
- `tests/` runs the library on concrete inputs.
