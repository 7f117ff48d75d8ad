# codex_native

A native Linux shell for the Codex desktop frontend, and a small ASAR archive
reader, with its logic written in Verus and proved against its contracts.

## Layout

- `src/` — the verified library.
  - `archive.rs`, `header.rs`: the ASAR archive: framing of the header,
    lookup of entries, reading of file contents, listing of paths, what
    extraction does with each path.
  - `json.rs`, `store.rs`: JSON values, dotted-path writes, pruning of
    `null` members, and the key/value stores the shell keeps.
  - `config.rs`: the configuration the shell reports and the edits the
    frontend writes.
  - `shell.rs`: the shell's state and the answers to the frontend's fetches.
  - `mcp.rs`: the app-server requests the shell answers itself, or passes on.
  - `router.rs`: the messages the frontend posts, and the workspace-root
    messages.
  - `workspace.rs`, `listing.rs`, `paths.rs`: workspace roots, directory
    listings, path components, sanitizing, MIME types.
  - `auth.rs`, `base64.rs`: who is signed in, and Base64 for file contents and
    token payloads.
  - `http.rs`, `messages.rs`, `cli.rs`, `text.rs`: the local asset server's
    requests and responses, the messages to the frontend and the
    app-server, the command line, and text helpers.
- `tests/` — tests of the library on concrete values.
- `app/` — the program around the library: the command line, reading and
  extracting archives on disk, the GTK/WebKit window, the `codex app-server`
  process, the local HTTP server, and JSON text parsing and printing.

Laws that relate several functions are public proof functions whose names
start with `law_`.
