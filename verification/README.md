# wjj_std

A verified core for a small standard library: error codes registered with
messages or templates, template rendering (MiniJinja) with a bounded cache of
registered templates, positional `{}` templates, the declaration rules of error
enums, and the start-up/shutdown lifecycle of an application's components.

- `src/` is verified with Verus. Calls into `minijinja`, `lru` and
  `serde_json` go through small trusted wrappers whose contracts speak of what
  the environment holds (its templates by name), what the cache holds (its
  entries from least to most recently used) and what a JSON value holds.
  - `template`: `TemplateEngine` (once, cached, positional rendering) and the
    free functions `format_template_once`, `format_template_cached`,
    `format_positional`, each of which uses a new engine. What MiniJinja
    renders is not a function of the template and context alone (its
    `debug()` prints the environment in a per-instance hash order), so the
    contracts state everything around it instead: the engine's templates,
    cache and identifiers, compile errors and argument errors. For the
    template texts that positional rendering produces (plain text and
    `{{ "{" }}`, `{{ "" }}`, `{{ _k }}` only), the rendering is named
    (`positional_rendering`), so the contracts of positional rendering fix the
    template text and context handed over and what comes back, whether cached
    or not; `render_result` maps what comes back.
  - `positional`: the rewriting of `{}` / `{{` / `}}`.
  - `error`, `err`: the two registries of error codes (`check_registrations`
    says whether `init` may be called; `try_init` does both) and the `RawErr` /
    `FmtErr` error types.
  - `codes`: prefixes, five-digit numbers, variant attributes, duplicate codes
    and generated identifiers of error enums.
  - `lifecycle`: the component lifecycle as a state machine.
- `app/` holds what Verus does not take: the process-wide template cache, the
  link-time registries (`linkme`, `ctor`), `Display` for the errors, the derive
  expansion (`syn`, `quote`) and the async component registries (`tokio`).
- `tests/` runs the library against the real outside crates.
