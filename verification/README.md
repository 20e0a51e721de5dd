# oatbar

The logic of a status bar for X11 and Wayland, written in Verus: each
function states what it computes in its `requires`/`ensures`, and Verus
proves it.

- `src/` is the verified library: expressions over variables and their
  filters (`parse`), the configuration and its defaults (`config`), the
  state fed by commands (`state`, `source`), popups (`popup`), what the bar
  redraws and shows (`bar`), the windows' placement and pointer handling
  (`window`), the socket protocol (`ipc`, `cli`), and the helper programs:
  desktop, keyboard, media players (`mpris`), tray items (`sni`), system
  statistics (`stats`), LLM prompts (`llm`) and the MCP server (`mcp`).
  Regular expressions come from the `regex` crate through the trusted
  items of `pattern`.
- `tests/` runs the library on concrete values.
- `app/` is the program around it: command-line handling, the
  configuration file, running the commands, the socket server, and the
  client commands.
