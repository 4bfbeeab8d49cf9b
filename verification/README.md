# nibari

A minimal bar for the niri compositor: workspaces, tasks, a clock with a calendar,
media, weather, network, the keyboard layout and a system tray with menus.

The logic of the bar is a library that is verified with Verus; the program around
it is ordinary Rust.

## Layout

- `src/` is the library. Each module states what its functions do in `requires` and
  `ensures` clauses; properties that span functions are the public proof functions
  whose names start with `law_`.
  - `config`, `clock`, `control`, `logger`, `memory`: settings, their loading and
    completion, ticks of the clock, commands to a running bar, logging levels, trimming of memory
  - `niri`: the model of workspaces and windows that the bars show
  - `tray`, `icons`: tray icons, their menus and the names of application icons
  - `media`, `network`, `weather`: what the workers decide between their calls
  - `render`: the layout and the drawing plans of the bar and its popups, pixels, and
    the caches of drawn texts and icons
  - `bar`: the bars of all outputs, the open popup, the tray drawer and the buffers
  - `text`, `order`, `date`, `json`, `counter`: what the others are written with
- `tests/` holds the tests of the library.
- `app/` is the program: the surfaces, the buses, other processes, the file system,
  and everything in floating point (fonts, shapes, colors of menus).

Calls into other crates stand behind functions marked `external_body`, whose doc
comments say what is relied on.
