# crux

The verified core of the Crux terminal emulator, written in Verus.

## Layout

- `src/` — the library, verified by Verus.
  - `protocol/` — JSON-RPC 2.0 types, method names, error codes and the
    length-prefix framing of the IPC wire protocol, and the reads the
    library makes of serde_json values.
  - `ipc/` — socket path resolution and discovery, the decisions of the
    per-client connection handler (buffering, framing, routing, answers),
    admission of clients, and what the client makes of answers.
  - `graphics/` — the Kitty graphics command parser (with laws over whole
    families of commands), decimal parsing, image data conversion, and the
    image store with its quota, LRU eviction, placements and chunked
    transfers.
  - `cli.rs` — the command-line client's arguments, requests and output.
  - `mcp/` — the agent interface's key names, command denylist, resource
    URIs, prompts, pane choice and output cleaning.
  - `clipboard.rs`, `config.rs` — clipboard content selection and errors,
    configuration defaults.
  - `workspace/` — the terminal window's pane bookkeeping (pane ids, the
    bounded event buffer, which pane was split from which), its answers to
    IPC commands, and moving between tabs and panes.
  - `text.rs` — decimal rendering and string comparison, search and slicing.
- `tests/` — tests of the library, run against the compiled crate.
- `app/` — the program around the library: command-line parsing, the IPC
  server and client over Unix sockets, the environment and file system,
  the configuration file, the serde copies of the protocol types, and a
  window without a terminal view that answers IPC commands.

Calls into outside crates (base64, regex, image, serde_json) and into std
functions that Verus has no specification for stand behind small trusted
wrappers whose contracts name or describe their results.
