# flipchart

An ephemeral whiteboard for agents: the agent draws Mermaid diagrams as named
views on a native window, the user reads them, turns back a sheet, and marks
them with ink that crosses back to the agent as pictures.

## Layout

- `src/` is the verified library:
  - `window.rs`: when the window goes to the front (born on the first `show`,
    reborn after being hidden, never on an update, never before a first frame);
  - `deck.rs`: the sheets the Viewer holds and the user's cursor over them,
    how a snapshot from the server is taken in, and the arrows;
  - `screen.rs`: what the Viewer does with each command that comes down the wire;
  - `first_show.rs`: the deferred start, which opens no window until a drawing
    with sheets arrives;
  - `glass.rs`, `zoom.rs`, `scale.rs`: the ink over a sheet, the user's zoom over
    the fit, and the eighths a sheet is painted at;
  - `loaded.rs`: the drawings the painting thread has read, read once each;
  - `reply.rs`: how the server words its replies to `show`, `clear` and `marks`;
  - `title.rs`, `machine.rs`, `wire.rs`, `params.rs`: the window's title, the
    Linux Machine's phrases, and the plain values that cross between the threads
    and from the agent.
- `tests/` runs the library.
- `app/` is the program around it: the two threads, the MCP server over stdio,
  the `eframe` window, the rasterizer and the macOS Machine.
