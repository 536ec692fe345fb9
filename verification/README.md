# mcp_arch

An MCP (Model Context Protocol) server for Arch Linux hosts. The server reads
JSON-RPC messages on stdin and offers a small set of scoped tools: disk usage,
CPU information, processes, Docker listings, git inspection, and reading and
writing files under configured roots.

## Layout

- `src/` — the verified library (Verus).
  - `json.rs` — the JSON value model and its mathematical view.
  - `text.rs` — splitting, trimming, line breaking, joining, decimal notation.
  - `config/path.rs` — the path configuration and the access checks: the
    canonical parent of a path, and the canonical path itself where it
    resolves, are compared component by component with the canonical roots.
    Each answer of the disk is recorded as one given for the path that was
    asked, and the laws say what an allowing verdict means for those answers;
    nothing is said of the time between the check and the access.
  - `protocol.rs` — request ids, JSON-RPC envelopes, `initialize`,
    `tools/list`, `tools/call`, and the handling of one message.
  - `tools/` — tool results, and what each tool asks of the host.
- `app/` — the binary: stdin/stdout, the environment, `serde_json` on the wire,
  and the work on the host (running programs, reading and writing files).
- `tests/` — tests of the library.

## Configuration

`MCP_BASE_PATH` (default `/home/user`), `MCP_READABLE_ROOTS` (default
`<base>/readable`) and `MCP_WRITABLE_ROOTS` (default `<base>/writable`); root
lists are comma-separated. A `.env` file is read at start-up.
