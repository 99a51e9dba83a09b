# livefolders

Tools as plain files: a mount shows every tool as a directory, writing to a file of a tool
sends it input, and reading the file gives its result.

`src/` is a Verus library with everything that such a mount decides and computes. Its
functions carry contracts, and Verus proves them:

- `fs`: the virtual file system. One slot per endpoint and shell session buffers input and
  result; `fs::laws` states what holds over several operations, such as that a read gives
  what the handler made of what was written, and that sessions do not see each other.
- `manifest`, `config`, `secrets`: what tools, projects and users declare.
- `registry`, `tools`, `sandbox`: tools, the checks of their input, and how they are confined.
- `mcp`, `mcp_proxy`: the tools as an MCP server, and MCP servers as tools.
- `installer`, `installation`, `marketplace`: where tools come from.
- `cli`, `daemon`, `doctor`, `watcher`: the program around a mount.
- `text`, `split`, `number`, `order`, `text_map`, `paths`, `json`: texts, paths and documents.

What is not proved stands in functions marked `external_body` and in specifications of
functions of other crates; each says in its comment what it claims.

`app/` is the program: it mounts the file system, runs handlers, and talks to disk, network
and terminal. `tests/` runs the library.
