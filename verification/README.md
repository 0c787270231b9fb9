# codex_models

The model catalog of a coding agent, written in Verus: which models there are, which one is the
default, what is known of each, and how the catalog is refreshed from the provider, from models.dev
and from a cache. The sign-in with GitHub Copilot, the tool that reloads MCP servers and the version
shown by the program are decided here too.

- `src/` is the library. Every function states what it returns, and Verus proves it.
  - `model`, `wire`, `cache`, `manager`: the data and its mathematical views.
  - `lookup`, `picker`, `provider_catalog`, `models_dev`, `session`: metadata lookup, picker
    entries, provider listings, the models.dev catalog, and what a session asks of the catalog.
  - `exchange`, `refresh`, `refresh_laws`: requests and replies, the refresh as steps with one piece
    of outside work each, and what holds of every refresh.
  - `device_auth`, `reload_mcp_servers`, `build_info`: the sign-in, the tool, the version.
  - `text`, `order`: operations on text and sequences.
  - `outside`: the calls into other crates, with the contracts they are relied on for.
- `app/` performs the outside work: HTTP, files, the clock, the terminal.
- `tests/` runs the library on concrete values.

Laws that relate several functions are the public proof functions whose names begin with `law_`.
