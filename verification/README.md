# turbomcp

A verified core of a Model Context Protocol (MCP) toolkit, written in Verus.

- `src/` is the library; its functions carry contracts that Verus proves,
  except five small trusted wrappers around outside calls (`str`'s `==`,
  `String::push`, `String::push_str`, `str::to_lowercase`, and syn's parsing
  of a string literal), whose contracts are taken as given.
  - `text`, `named_map`, `json`: strings, an insertion-ordered map with unique
    keys, and a JSON value model with size-limit checks.
  - `types`, `jsonrpc`, `error_codes`, `tools`: the protocol types; tool
    definitions, input schemas and tool results (text extraction and display).
  - `validation`: the protocol validator (method names, URIs, size limits,
    tool, prompt, resource and initialize checks).
  - `handlers`, `router`: handlers built from functions, the handler
    registry, and the tool router (registration, listing, routing, combining).
  - `macros`: the decisions of the `#[server]` and `#[derive(FlattenTool)]`
    macros over a model of Rust syntax: reading attributes and doc comments,
    analysing the impl block, checking it, planning the generated handler's
    listings and dispatch, and planning the flattened constructor.
- `app/` is ordinary Rust around the library: `serde` forms of the tool types,
  conversions to and from `serde_json`, the asynchronous router, and the
  token-level side of the macros (`syn` in, `quote` out).
- `tests/` exercises the library through its public API.
