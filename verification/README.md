# liquidglass0

Tooling around a "liquid glass" renderer built on wgpu: the `lg0` command
line (read and edit `config.toml`, read and edit the WGSL shaders, render a
frame off screen and capture a texture as PNG) and an MCP debugging service
with the same abilities.

## Layout

- `src/` — the library, verified with Verus. It holds the integer and text
  logic of the tools: readback row layout and PNG encoding of frames, base64,
  compute dispatch sizes, the choice of scene lights, capture requests and
  replies, shader paths and loader files, composing shaders with naga_oil
  (and what a hot reload rebuilds), parameter keys and the plan of an update
  against the config document (which edit, or which error; the edit itself,
  which writes a floating point value, is done by the program), the default configuration, the press / release
  cycle of the surface, and the `lg0` commands. Calls into outside crates
  (wgpu, image, toml, toml_edit, serde_json, naga_oil) stand behind small
  trusted wrappers whose contracts say what is assumed of them.
- `tests/` — tests of the library on concrete values.
- `app/` — the program: argument parsing, file and GPU work, the MCP
  service, and the floating-point parts (materials, lights, the spring, the
  shape functions). Run under the name `liquidglass0-mcp`, it serves MCP over
  stdio; otherwise it is `lg0`.

The WGSL sources are read from `shaders/` in the working directory.
