# zotero-cli

A terminal client for a Zotero library, talking to the local connector API
(`localhost:23119`). The crate is a verified library with a thin program
around it.

- `src/` (verified)
  - `text.rs`: character-level utilities (truncation with an ellipsis, HTML
    tag stripping, greedy word wrapping by UTF-8 byte width, decimal
    formatting) and their laws.
  - `types.rs`: items, creators, tags, collections, children and tag
    entries; creator display names; compact records.
  - `config.rs`: defaults, environment overrides, the configuration file's
    location and the `config` report.
  - `client.rs`: library-scoped request URLs, percent-encoding of search
    terms, the authentication header, request bodies and error messages.
  - `output.rs`: the tables and the item detail view.
  - `reply.rs`: reading the API's replies (children, tags) and the JSON
    that the `--json` output and the "add" commands print.
  - `paint.rs`, `table.rs`: the styling (`colored`) and table drawing
    (`tabled`) that the renderers call.
- `app/`: argument parsing, configuration file and environment, HTTP,
  JSON/TOML, printing.
- `tests/`: tests of the library.
