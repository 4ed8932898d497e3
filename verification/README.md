# ssh_colony

The engine of a terminal colony game, as a verified Verus library.

- `src/` — the library, every function verified:
  - `context` — lifetimes shared between threads (cancel, expire, die with
    an ancestor);
  - `input` — terminal bytes to key, mouse and size events;
  - `render/` — characters, text, glyphs, sprites, text boxes, the camera,
    draw plans and the layered renderer that carries out render signals;
  - `cells` — the older grid renderer: messages on a grid of cells, the
    screen text it prints and the animation tick;
  - `ui/` — borders, styles, menus, selectors, buttons and text areas;
  - `scenes` — the scene stack dispatcher, one decision per step;
  - `types/` — positions, the sparse set, byte encoding, and the framing
    and reply decisions of the server handshake;
  - `error`, `clock`.
- `tests/` — tests of the library on concrete values.
- `app/` — the runtime around it: the main, input and render threads,
  sockets, files, Lua scenes, RON stores and serde forms.
